//! Effects run one after the other on each frame.
//!
//! The first error ends a pass: later effects are left out.  Shutting down is
//! the exception, which reaches every effect.

use vstd::prelude::*;
use crate::background_blur::config::{self, BlurConfig, BACKGROUND_BLUR};
use crate::background_blur::effect::{self as background_blur, BlurState};
use crate::context::{FrameContext, ProcessingContext};
use crate::error::EffectError;
use crate::frame::VideoFrame;
use crate::mask_effects;
use crate::name_map::NameMap;
use crate::params::{self, ParamValue, RawEffectParams};
use crate::pixel_math::PixelMath;
use crate::traits::{ModelLoader, VideoCall, VideoEffect};

verus! {

/// Ordered list of effects, run in turn on each frame.
pub struct EffectChain {
    effects: Vec<Box<dyn VideoEffect>>,
}

/// Whether effect `i` is well-formed.
pub open spec fn wf_at(effects: Seq<Box<dyn VideoEffect>>, i: int) -> bool {
    effects[i].wf()
}

/// Whether every effect is well-formed.
pub open spec fn all_wf(effects: Seq<Box<dyn VideoEffect>>) -> bool {
    forall|i: int| 0 <= i < effects.len() ==> #[trigger] wf_at(effects, i)
}

/// Name of effect `i`.
pub open spec fn id_at(effects: Seq<Box<dyn VideoEffect>>, i: int) -> Seq<char> {
    effects[i].rules().id
}

/// Whether effect `i` may be prepared with the outcome `r` and come out as in
/// `after`.
pub open spec fn may_prepare_at(
    effects: Seq<Box<dyn VideoEffect>>,
    after: Seq<Box<dyn VideoEffect>>,
    i: int,
    context: ProcessingContext,
    r: Result<(), EffectError>,
) -> bool {
    (effects[i].rules().prepare)(effects[i].state(), context, after[i].state(), r)
}

/// Whether effect `i` may be shut down with the outcome `r` and come out as in
/// `after`.
pub open spec fn may_shut_down_at(
    effects: Seq<Box<dyn VideoEffect>>,
    after: Seq<Box<dyn VideoEffect>>,
    i: int,
    r: Result<(), EffectError>,
) -> bool {
    (effects[i].rules().shut_down)(effects[i].state(), after[i].state(), r)
}

/// What `given` has under the name of effect `i`.
pub open spec fn value_at(
    effects: Seq<Box<dyn VideoEffect>>,
    i: int,
    given: Map<Seq<char>, ParamValue>,
) -> Option<params::ParamModel> {
    let name = effects[i].rules().id;
    if given.contains_key(name) {
        Some(given[name]@)
    } else {
        None
    }
}

/// Whether effect `i` may be configured with what `given` has under its name,
/// with the outcome `r`, and come out as in `after`.
pub open spec fn may_configure_at(
    effects: Seq<Box<dyn VideoEffect>>,
    after: Seq<Box<dyn VideoEffect>>,
    i: int,
    given: Map<Seq<char>, ParamValue>,
    r: Result<(), EffectError>,
) -> bool {
    exists|p: RawEffectParams| #[trigger]
        p.stands_for(value_at(effects, i, given)) && (effects[i].rules().configure)(
            effects[i].state(),
            p,
            after[i].state(),
            r,
        )
}

/// Whether effect `i` may process a frame with the given outcome and come out as
/// in `after`.
pub open spec fn may_process_at(
    effects: Seq<Box<dyn VideoEffect>>,
    after: Seq<Box<dyn VideoEffect>>,
    i: int,
    frame: VideoFrame,
    context: FrameContext,
    frame_after: VideoFrame,
    context_after: FrameContext,
    r: Result<(), EffectError>,
) -> bool {
    (effects[i].rules().process)(
        effects[i].state(),
        VideoCall { frame, context, frame_after, context_after },
        after[i].state(),
        r,
    )
}

/// Whether a frame and its context may look as given after the first `n`
/// effects, each of which ran once and succeeded.
pub open spec fn processed(
    effects: Seq<Box<dyn VideoEffect>>,
    after: Seq<Box<dyn VideoEffect>>,
    n: int,
    frame: VideoFrame,
    context: FrameContext,
    frame_after: VideoFrame,
    context_after: FrameContext,
) -> bool
    decreases n,
{
    if n <= 0 {
        frame_after == frame && context_after == context
    } else {
        exists|f: VideoFrame, c: FrameContext|
            processed(effects, after, n - 1, frame, context, f, c) && #[trigger] may_process_at(
                effects,
                after,
                n - 1,
                f,
                c,
                frame_after,
                context_after,
                Ok(()),
            )
    }
}

/// Whether effect `n` may be the first to fail, with the outcome `r`.
pub open spec fn failed_at(
    effects: Seq<Box<dyn VideoEffect>>,
    after: Seq<Box<dyn VideoEffect>>,
    n: int,
    frame: VideoFrame,
    context: FrameContext,
    frame_after: VideoFrame,
    context_after: FrameContext,
    r: Result<(), EffectError>,
) -> bool {
    exists|f: VideoFrame, c: FrameContext|
        processed(effects, after, n, frame, context, f, c) && #[trigger] may_process_at(
            effects,
            after,
            n,
            f,
            c,
            frame_after,
            context_after,
            r,
        )
}

/// Whether effect `i` is the same in both lists.
pub open spec fn same_at(
    a: Seq<Box<dyn VideoEffect>>,
    b: Seq<Box<dyn VideoEffect>>,
    i: int,
) -> bool {
    a[i] == b[i]
}

/// Whether the effects from `n` on are the same in both lists.
pub open spec fn same_from(
    a: Seq<Box<dyn VideoEffect>>,
    b: Seq<Box<dyn VideoEffect>>,
    n: int,
) -> bool {
    forall|i: int| n <= i < a.len() ==> #[trigger] same_at(a, b, i)
}

/// Whether effect `i` goes by the same rules in both lists.
pub open spec fn like_at(
    a: Seq<Box<dyn VideoEffect>>,
    b: Seq<Box<dyn VideoEffect>>,
    i: int,
) -> bool {
    a[i].rules() == b[i].rules()
}

/// Whether both lists have effects of the same rules.
pub open spec fn alike(a: Seq<Box<dyn VideoEffect>>, b: Seq<Box<dyn VideoEffect>>) -> bool {
    &&& a.len() == b.len()
    &&& forall|i: int| 0 <= i < a.len() ==> #[trigger] like_at(a, b, i)
}

impl EffectChain {
    /// Whether every effect is well-formed.
    pub open spec fn wf(&self) -> bool {
        all_wf(self.list())
    }

    /// The effects, in order.
    pub closed spec fn list(&self) -> Seq<Box<dyn VideoEffect>> {
        self.effects@
    }

    /// Build a chain from an ordered list of effects.
    #[must_use]
    pub fn new(effects: Vec<Box<dyn VideoEffect>>) -> (r: Self)
        requires
            all_wf(effects@),
        ensures
            r.wf(),
            r.list() == effects@,
    {
        EffectChain { effects }
    }

    /// Whether the chain has no effect.
    #[must_use]
    pub fn is_empty(&self) -> (r: bool)
        ensures
            r == (self.list().len() == 0),
    {
        self.effects.len() == 0
    }

    /// Number of effects.
    #[must_use]
    pub fn len(&self) -> (r: usize)
        ensures
            r == self.list().len(),
    {
        self.effects.len()
    }

    /// Names of the effects, in order.
    #[must_use]
    pub fn names(&self) -> (r: Vec<&'static str>)
        ensures
            r@.len() == self.list().len(),
            forall|i: int| 0 <= i < r@.len() ==> (#[trigger] r@[i])@ == id_at(self.list(), i),
    {
        let mut out: Vec<&'static str> = Vec::new();
        let mut i: usize = 0;
        while i < self.effects.len()
            invariant
                i <= self.effects@.len(),
                out@.len() == i,
                forall|k: int| 0 <= k < i ==> (#[trigger] out@[k])@ == id_at(self.effects@, k),
            decreases self.effects@.len() - i,
        {
            let name: &'static str = self.effects[i].name();
            out.push(name);
            i = i + 1;
        }
        out
    }

    /// The effects themselves.
    #[must_use]
    pub fn into_effects(self) -> (r: Vec<Box<dyn VideoEffect>>)
        ensures
            r@ == self.list(),
    {
        self.effects
    }

    /// Configure every effect in order with the value under its name, or with
    /// an empty table; the first failure ends the pass.
    pub fn configure_all(&mut self, per_effect_params: &NameMap<String, ParamValue>) -> (r: Result<
        (),
        EffectError,
    >)
        requires
            old(self).wf(),
            per_effect_params.wf(),
        ensures
            final(self).wf(),
            alike(old(self).list(), final(self).list()),
            match r {
                Ok(()) => forall|i: int|
                    0 <= i < old(self).list().len() ==> #[trigger] may_configure_at(
                        old(self).list(),
                        final(self).list(),
                        i,
                        per_effect_params@,
                        Ok(()),
                    ),
                Err(e) => exists|i: int|
                    0 <= i < old(self).list().len() && #[trigger] may_configure_at(
                        old(self).list(),
                        final(self).list(),
                        i,
                        per_effect_params@,
                        r,
                    ) && same_from(final(self).list(), old(self).list(), i + 1) && forall|k: int|
                        0 <= k < i ==> #[trigger] may_configure_at(
                            old(self).list(),
                            final(self).list(),
                            k,
                            per_effect_params@,
                            Ok(()),
                        ),
            },
    {
        let mut i: usize = 0;
        let ghost start = self.effects@;
        let ghost given = per_effect_params@;
        while i < self.effects.len()
            invariant
                per_effect_params.wf(),
                given == per_effect_params@,
                i <= self.effects@.len(),
                alike(start, self.effects@),
                all_wf(self.effects@),
                start == old(self).list(),
                same_from(self.effects@, start, i as int),
                forall|k: int|
                    0 <= k < i ==> #[trigger] may_configure_at(
                        start,
                        self.effects@,
                        k,
                        given,
                        Ok(()),
                    ),
            decreases start.len() - i,
        {
            let ghost before = self.effects@;
            assert(same_at(before, start, i as int));
            assert(wf_at(before, i as int));
            let name: &'static str = self.effects[i].name();
            let params = RawEffectParams::of_value(per_effect_params.get(name));
            let ghost p = params;
            let r = self.effects[i].configure(params);
            proof {
                lemma_one_changed(start, before, self.effects@, i as int);
            }
            let ghost value: Option<params::ParamModel> = if given.contains_key(name@) {
                Some(given[name@]@)
            } else {
                None
            };
            assert(p.stands_for(value));
            assert(id_at(start, i as int) == name@);
            assert((start[i as int].rules().configure)(
                start[i as int].state(),
                p,
                self.effects@[i as int].state(),
                r,
            ));
            assert(value == value_at(start, i as int, given));
            assert(may_configure_at(start, self.effects@, i as int, given, r));
            proof {
                assert forall|k: int| 0 <= k < i implies #[trigger] may_configure_at(
                    start,
                    self.effects@,
                    k,
                    given,
                    Ok(()),
                ) by {
                    assert(may_configure_at(start, before, k, given, Ok(())));
                    assert(same_at(self.effects@, before, k));
                }
            }
            assert(r is Ok ==> r->Ok_0 == ());
            if r.is_err() {
                return r;
            }
            i = i + 1;
        }
        Ok(())
    }

    /// Prepare every effect in order; the first failure ends the pass.
    pub fn prepare_all(&mut self, context: &ProcessingContext) -> (r: Result<(), EffectError>)
        requires
            old(self).wf(),
        ensures
            final(self).wf(),
            alike(old(self).list(), final(self).list()),
            match r {
                Ok(()) => forall|i: int|
                    0 <= i < old(self).list().len() ==> #[trigger] may_prepare_at(
                        old(self).list(),
                        final(self).list(),
                        i,
                        *context,
                        Ok(()),
                    ),
                Err(e) => exists|i: int|
                    0 <= i < old(self).list().len() && #[trigger] may_prepare_at(
                        old(self).list(),
                        final(self).list(),
                        i,
                        *context,
                        r,
                    ) && same_from(final(self).list(), old(self).list(), i + 1) && forall|k: int|
                        0 <= k < i ==> #[trigger] may_prepare_at(
                            old(self).list(),
                            final(self).list(),
                            k,
                            *context,
                            Ok(()),
                        ),
            },
    {
        let mut i: usize = 0;
        let ghost start = self.effects@;
        while i < self.effects.len()
            invariant
                i <= self.effects@.len(),
                alike(start, self.effects@),
                all_wf(self.effects@),
                start == old(self).list(),
                same_from(self.effects@, start, i as int),
                forall|k: int|
                    0 <= k < i ==> #[trigger] may_prepare_at(
                        start,
                        self.effects@,
                        k,
                        *context,
                        Ok(()),
                    ),
            decreases start.len() - i,
        {
            let ghost before = self.effects@;
            assert(same_at(before, start, i as int));
            assert(wf_at(before, i as int));
            let r = self.effects[i].prepare(context);
            proof {
                lemma_one_changed(start, before, self.effects@, i as int);
            }
            assert(may_prepare_at(start, self.effects@, i as int, *context, r));
            proof {
                assert forall|k: int| 0 <= k < i implies #[trigger] may_prepare_at(
                    start,
                    self.effects@,
                    k,
                    *context,
                    Ok(()),
                ) by {
                    assert(may_prepare_at(start, before, k, *context, Ok(())));
                    assert(same_at(self.effects@, before, k));
                }
            }
            assert(r is Ok ==> r->Ok_0 == ());
            if r.is_err() {
                return r;
            }
            i = i + 1;
        }
        Ok(())
    }

    /// Process a frame through the chain; the first failure ends the pass.
    pub fn process(&mut self, frame: &mut VideoFrame, context: &mut FrameContext) -> (r: Result<
        (),
        EffectError,
    >)
        requires
            old(self).wf(),
        ensures
            final(self).wf(),
            alike(old(self).list(), final(self).list()),
            match r {
                Ok(()) => processed(
                    old(self).list(),
                    final(self).list(),
                    old(self).list().len() as int,
                    *old(frame),
                    *old(context),
                    *final(frame),
                    *final(context),
                ),
                Err(e) => exists|i: int|
                    0 <= i < old(self).list().len() && #[trigger] failed_at(
                        old(self).list(),
                        final(self).list(),
                        i,
                        *old(frame),
                        *old(context),
                        *final(frame),
                        *final(context),
                        r,
                    ) && same_from(final(self).list(), old(self).list(), i + 1),
            },
    {
        let mut i: usize = 0;
        let ghost start = self.effects@;
        while i < self.effects.len()
            invariant
                i <= self.effects@.len(),
                alike(start, self.effects@),
                all_wf(self.effects@),
                start == old(self).list(),
                same_from(self.effects@, start, i as int),
                processed(
                    start,
                    self.effects@,
                    i as int,
                    *old(frame),
                    *old(context),
                    *frame,
                    *context,
                ),
            decreases start.len() - i,
        {
            let ghost before = self.effects@;
            let ghost f = *frame;
            let ghost c = *context;
            assert(same_at(before, start, i as int));
            assert(wf_at(before, i as int));
            let r = self.effects[i].process(frame, context);
            proof {
                lemma_one_changed(start, before, self.effects@, i as int);
            }
            let ghost now = self.effects@;
            assert(may_process_at(start, now, i as int, f, c, *frame, *context, r));
            assert(r is Ok ==> r->Ok_0 == ());
            proof {
                lemma_processed(start, before, now, i as int, *old(frame), *old(context), f, c);
            }
            if r.is_err() {
                assert(failed_at(
                    start,
                    now,
                    i as int,
                    *old(frame),
                    *old(context),
                    *frame,
                    *context,
                    r,
                ));
                return r;
            }
            assert(r == Ok::<(), EffectError>(()));
            assert(may_process_at(start, now, (i + 1) - 1, f, c, *frame, *context, Ok(())));
            assert(processed(start, now, (i + 1) - 1, *old(frame), *old(context), f, c));
            assert(processed(start, now, i + 1, *old(frame), *old(context), *frame, *context));
            i = i + 1;
        }
        Ok(())
    }

    /// Shut every effect down, whatever the others report; the first failure is
    /// returned.
    pub fn shutdown_all(&mut self) -> (r: Result<(), EffectError>)
        requires
            old(self).wf(),
        ensures
            final(self).wf(),
            alike(old(self).list(), final(self).list()),
            exists|all: Seq<Result<(), EffectError>>| #[trigger]
                shut_down(old(self).list(), final(self).list(), all) && r == first_failure(all),
    {
        let mut first_err: Option<EffectError> = None;
        let mut i: usize = 0;
        let ghost start = self.effects@;
        let ghost mut all: Seq<Result<(), EffectError>> = Seq::empty();
        while i < self.effects.len()
            invariant
                i <= self.effects@.len(),
                alike(start, self.effects@),
                all_wf(self.effects@),
                start == old(self).list(),
                all.len() == i,
                same_from(self.effects@, start, i as int),
                forall|k: int|
                    0 <= k < i ==> may_shut_down_at(start, self.effects@, k, #[trigger] all[k]),
                first_failure(all) == (match first_err {
                    Some(e) => Err::<(), EffectError>(e),
                    None => Ok(()),
                }),
            decreases start.len() - i,
        {
            let ghost before = self.effects@;
            assert(same_at(before, start, i as int));
            assert(wf_at(before, i as int));
            let r = self.effects[i].shutdown();
            proof {
                lemma_one_changed(start, before, self.effects@, i as int);
            }
            assert(may_shut_down_at(start, self.effects@, i as int, r));
            proof {
                let earlier = all;
                all = all.push(r);
                assert(all.drop_last() =~= earlier);
                assert forall|k: int| 0 <= k < i implies may_shut_down_at(
                    start,
                    self.effects@,
                    k,
                    #[trigger] all[k],
                ) by {
                    assert(may_shut_down_at(start, before, k, earlier[k]));
                    assert(same_at(self.effects@, before, k));
                }
            }
            assert(r is Ok ==> r->Ok_0 == ());
            if let Err(e) = r {
                if first_err.is_none() {
                    first_err = Some(e);
                }
            }
            i = i + 1;
        }
        assert(shut_down(start, self.effects@, all));
        match first_err {
            Some(e) => Err(e),
            None => Ok(()),
        }
    }
}

/// What `configure_all` is given governs the frames that follow: a background blur
/// that is configured, prepared and then asked about a frame treats the frame by
/// the parameters under its name.
pub proof fn law_configuration_governs<M: PixelMath, L: ModelLoader>(
    math: &M,
    loader: &L,
    start: Seq<Box<dyn VideoEffect>>,
    configured: Seq<Box<dyn VideoEffect>>,
    prepared: Seq<Box<dyn VideoEffect>>,
    done: Seq<Box<dyn VideoEffect>>,
    i: int,
    given: Map<Seq<char>, ParamValue>,
    stream: ProcessingContext,
    call: VideoCall,
    r: Result<(), EffectError>,
)
    requires
        0 <= i < start.len(),
        start[i].rules() == background_blur::blur_rules(math, loader),
        alike(start, configured),
        alike(configured, prepared),
        may_configure_at(start, configured, i, given, Ok(())),
        may_prepare_at(configured, prepared, i, stream, Ok(())),
        may_process_at(
            prepared,
            done,
            i,
            call.frame,
            call.context,
            call.frame_after,
            call.context_after,
            r,
        ),
    ensures
        exists|p: RawEffectParams, c: BlurConfig|
            {
                &&& #[trigger] p.stands_for(value_at(start, i, given))
                &&& #[trigger] c.spelled(p.fields(config::field_names())->Ok_0)
                &&& c.defect() is None
                &&& prepared[i].state()->Blur_0.config == Some(c)
                &&& background_blur::ran(
                    math,
                    prepared[i].state()->Blur_0,
                    done[i].state()->Blur_0,
                    call.frame,
                    call.frame_after,
                    call.context,
                    call.context_after,
                    r,
                )
            },
{
    assert(like_at(start, configured, i));
    assert(like_at(configured, prepared, i));
    let p = choose|p: RawEffectParams| #[trigger]
        p.stands_for(value_at(start, i, given)) && (start[i].rules().configure)(
            start[i].state(),
            p,
            configured[i].state(),
            Ok(()),
        );
    let before = start[i].state()->Blur_0;
    let after = configured[i].state()->Blur_0;
    let c = choose|c: BlurConfig| #[trigger]
        c.spelled(p.fields(config::field_names())->Ok_0) && mask_effects::configured(
            BACKGROUND_BLUR@,
            c.defect(),
            Ok(()),
        ) && after == (BlurState { config: Some(c), ..before });
    assert(p.stands_for(value_at(start, i, given)));
    assert(c.spelled(p.fields(config::field_names())->Ok_0));
}

/// Whether `all` is what the effects report when each is shut down, once, and
/// comes out as in `after`.
pub open spec fn shut_down(
    effects: Seq<Box<dyn VideoEffect>>,
    after: Seq<Box<dyn VideoEffect>>,
    all: Seq<Result<(), EffectError>>,
) -> bool {
    &&& all.len() == effects.len()
    &&& forall|i: int| 0 <= i < all.len() ==> may_shut_down_at(
        effects,
        after,
        i,
        #[trigger] all[i],
    )
}

/// The first failure of a list of outcomes, or success.
pub open spec fn first_failure(all: Seq<Result<(), EffectError>>) -> Result<(), EffectError>
    decreases all.len(),
{
    if all.len() == 0 {
        Ok(())
    } else {
        let earlier = first_failure(all.drop_last());
        if earlier is Err {
            earlier
        } else {
            all.last()
        }
    }
}

/// What the first `n` effects do does not depend on the later ones.
proof fn lemma_processed(
    effects: Seq<Box<dyn VideoEffect>>,
    a: Seq<Box<dyn VideoEffect>>,
    b: Seq<Box<dyn VideoEffect>>,
    n: int,
    frame: VideoFrame,
    context: FrameContext,
    frame_after: VideoFrame,
    context_after: FrameContext,
)
    requires
        processed(effects, a, n, frame, context, frame_after, context_after),
        forall|i: int| 0 <= i < n ==> #[trigger] same_at(b, a, i),
    ensures
        processed(effects, b, n, frame, context, frame_after, context_after),
    decreases n,
{
    if n > 0 {
        let (f, c) = choose|f: VideoFrame, c: FrameContext|
            processed(effects, a, n - 1, frame, context, f, c) && #[trigger] may_process_at(
                effects,
                a,
                n - 1,
                f,
                c,
                frame_after,
                context_after,
                Ok(()),
            );
        lemma_processed(effects, a, b, n - 1, frame, context, f, c);
        assert(same_at(b, a, n - 1));
        assert(may_process_at(effects, b, n - 1, f, c, frame_after, context_after, Ok(())));
    }
}

/// A list of which one effect changed stays well-formed, keeps its rules, and
/// is the same from the next effect on.
proof fn lemma_one_changed(
    start: Seq<Box<dyn VideoEffect>>,
    before: Seq<Box<dyn VideoEffect>>,
    after: Seq<Box<dyn VideoEffect>>,
    i: int,
)
    requires
        all_wf(before),
        alike(start, before),
        same_from(before, start, i),
        after.len() == before.len(),
        0 <= i < after.len(),
        wf_at(after, i),
        like_at(before, after, i),
        forall|k: int| 0 <= k < after.len() && k != i ==> #[trigger] same_at(after, before, k),
    ensures
        all_wf(after),
        alike(start, after),
        same_from(after, start, i + 1),
{
    assert forall|k: int| 0 <= k < after.len() implies #[trigger] wf_at(after, k) by {
        if k != i {
            assert(same_at(after, before, k));
            assert(wf_at(before, k));
        }
    }
    assert forall|k: int| 0 <= k < start.len() implies #[trigger] like_at(start, after, k) by {
        assert(like_at(start, before, k));
        if k != i {
            assert(same_at(after, before, k));
        }
    }
    assert forall|k: int| i + 1 <= k < after.len() implies #[trigger] same_at(after, start, k) by {
        assert(same_at(after, before, k));
        assert(same_at(before, start, k));
    }
}

/// Whether effect `i` takes step `i`: from the frame and the context that the effect
/// before it left to those that the next one finds.
pub open spec fn step_at(
    effects: Seq<Box<dyn VideoEffect>>,
    after: Seq<Box<dyn VideoEffect>>,
    frames: Seq<VideoFrame>,
    contexts: Seq<FrameContext>,
    i: int,
    r: Result<(), EffectError>,
) -> bool {
    (effects[i].rules().process)(
        effects[i].state(),
        VideoCall {
            frame: frames[i],
            context: contexts[i],
            frame_after: frames[i + 1],
            context_after: contexts[i + 1],
        },
        after[i].state(),
        r,
    )
}

/// Whether `frames` and `contexts` lead from the first frame through the first `n`
/// effects, one after the other.
pub open spec fn steps(
    effects: Seq<Box<dyn VideoEffect>>,
    after: Seq<Box<dyn VideoEffect>>,
    frames: Seq<VideoFrame>,
    contexts: Seq<FrameContext>,
    n: int,
) -> bool {
    &&& frames.len() == n + 1
    &&& contexts.len() == n + 1
    &&& forall|i: int|
        0 <= i < n ==> #[trigger] step_at(effects, after, frames, contexts, i, Ok(()))
}

/// What the first effects do is step after step.
proof fn lemma_steps(
    effects: Seq<Box<dyn VideoEffect>>,
    after: Seq<Box<dyn VideoEffect>>,
    n: int,
    frame: VideoFrame,
    context: FrameContext,
    frame_after: VideoFrame,
    context_after: FrameContext,
) -> (r: (Seq<VideoFrame>, Seq<FrameContext>))
    requires
        0 <= n,
        processed(effects, after, n, frame, context, frame_after, context_after),
    ensures
        steps(effects, after, r.0, r.1, n),
        r.0[0] == frame,
        r.1[0] == context,
        r.0[n] == frame_after,
        r.1[n] == context_after,
    decreases n,
{
    if n == 0 {
        (seq![frame], seq![context])
    } else {
        let (f, c) = choose|f: VideoFrame, c: FrameContext|
            processed(effects, after, n - 1, frame, context, f, c) && #[trigger] may_process_at(
                effects,
                after,
                n - 1,
                f,
                c,
                frame_after,
                context_after,
                Ok(()),
            );
        let (fs, cs) = lemma_steps(effects, after, n - 1, frame, context, f, c);
        let frames = fs.push(frame_after);
        let contexts = cs.push(context_after);
        assert forall|i: int| 0 <= i < n implies #[trigger] step_at(
            effects,
            after,
            frames,
            contexts,
            i,
            Ok(()),
        ) by {
            if i < n - 1 {
                assert(step_at(effects, after, fs, cs, i, Ok(())));
            }
        }
        (frames, contexts)
    }
}

/// A frame goes through the effects in their order: each finds the frame and the
/// context as the one before it left them.  Where one fails, its failure is the
/// outcome, and the effects after it stay as they are.
pub proof fn law_frame_through_chain(
    chain: &mut EffectChain,
    frame: &mut VideoFrame,
    context: &mut FrameContext,
    r: Result<(), EffectError>,
)
    requires
        call_ensures(EffectChain::process, (chain, frame, context), r),
    ensures
        final(chain).list().len() == old(chain).list().len(),
        exists|frames: Seq<VideoFrame>, contexts: Seq<FrameContext>, n: int|
            {
                &&& #[trigger] steps(old(chain).list(), final(chain).list(), frames, contexts, n)
                &&& frames[0] == *old(frame)
                &&& contexts[0] == *old(context)
                &&& 0 <= n <= old(chain).list().len()
                &&& r is Ok ==> n == old(chain).list().len() && frames[n] == *final(frame)
                    && contexts[n] == *final(context)
                &&& r is Err ==> n < old(chain).list().len() && step_at(
                    old(chain).list(),
                    final(chain).list(),
                    frames.push(*final(frame)),
                    contexts.push(*final(context)),
                    n,
                    r,
                ) && forall|k: int|
                    n < k < old(chain).list().len() ==> final(chain).list()[k] == #[trigger] old(chain).list()[k]
            },
{
    let (effects, after) = (old(chain).list(), final(chain).list());
    if r is Ok {
        let n = effects.len() as int;
        let (frames, contexts) = lemma_steps(
            effects,
            after,
            n,
            *old(frame),
            *old(context),
            *final(frame),
            *final(context),
        );
        assert(steps(effects, after, frames, contexts, n));
    } else {
        let n = choose|i: int|
            0 <= i < effects.len() && #[trigger] failed_at(
                effects,
                after,
                i,
                *old(frame),
                *old(context),
                *final(frame),
                *final(context),
                r,
            ) && same_from(after, effects, i + 1);
        let (f, c) = choose|f: VideoFrame, c: FrameContext|
            processed(effects, after, n, *old(frame), *old(context), f, c)
                && #[trigger] may_process_at(
                effects,
                after,
                n,
                f,
                c,
                *final(frame),
                *final(context),
                r,
            );
        let (frames, contexts) = lemma_steps(effects, after, n, *old(frame), *old(context), f, c);
        assert(steps(effects, after, frames, contexts, n));
        assert forall|k: int| n < k < effects.len() implies after[k] == #[trigger] effects[k] by {
            assert(same_at(after, effects, k));
        }
    }
}

/// Every effect is configured once, in order, with the value under its own name or with
/// an empty table; the first failure is the outcome, and the effects after it stay as
/// they are.
pub proof fn law_each_configured_by_name(
    chain: &mut EffectChain,
    given: &NameMap<String, ParamValue>,
    r: Result<(), EffectError>,
)
    requires
        call_ensures(EffectChain::configure_all, (chain, given), r),
    ensures
        final(chain).list().len() == old(chain).list().len(),
        exists|n: int|
            {
                &&& 0 <= n <= old(chain).list().len()
                &&& r is Ok <==> n == old(chain).list().len()
                &&& #[trigger] configured_until(old(chain).list(), final(chain).list(), given@, n, r)
            },
{
    let (effects, after) = (old(chain).list(), final(chain).list());
    if r is Ok {
        assert(configured_until(effects, after, given@, effects.len() as int, r)) by {
            assert forall|i: int| 0 <= i < effects.len() implies #[trigger] taken_at(
                effects,
                after,
                given@,
                i,
                Ok(()),
            ) by {
                assert(may_configure_at(effects, after, i, given@, Ok(())));
                lemma_taken(effects, after, given@, i, Ok(()));
            }
        }
    } else {
        let n = choose|i: int|
            0 <= i < effects.len() && #[trigger] may_configure_at(effects, after, i, given@, r)
                && same_from(after, effects, i + 1) && forall|k: int|
                0 <= k < i ==> #[trigger] may_configure_at(effects, after, k, given@, Ok(()));
        assert forall|k: int| n < k < effects.len() implies after[k] == #[trigger] effects[k] by {
            assert(same_at(after, effects, k));
        }
        assert forall|i: int| 0 <= i < n implies #[trigger] taken_at(
            effects,
            after,
            given@,
            i,
            Ok(()),
        ) by {
            assert(may_configure_at(effects, after, i, given@, Ok(())));
            lemma_taken(effects, after, given@, i, Ok(()));
        }
        lemma_taken(effects, after, given@, n, r);
        assert(configured_until(effects, after, given@, n, r));
    }
}

/// Whether effect `i` takes the parameters `p` with the outcome `r`.
pub open spec fn takes(
    effects: Seq<Box<dyn VideoEffect>>,
    after: Seq<Box<dyn VideoEffect>>,
    i: int,
    p: RawEffectParams,
    r: Result<(), EffectError>,
) -> bool {
    (effects[i].rules().configure)(effects[i].state(), p, after[i].state(), r)
}

/// What an effect may be configured with is what it takes.
proof fn lemma_taken(
    effects: Seq<Box<dyn VideoEffect>>,
    after: Seq<Box<dyn VideoEffect>>,
    given: Map<Seq<char>, ParamValue>,
    i: int,
    r: Result<(), EffectError>,
)
    requires
        may_configure_at(effects, after, i, given, r),
    ensures
        taken_at(effects, after, given, i, r),
{
    let p = choose|p: RawEffectParams| #[trigger]
        p.stands_for(value_at(effects, i, given)) && (effects[i].rules().configure)(
            effects[i].state(),
            p,
            after[i].state(),
            r,
        );
    assert(takes(effects, after, i, p, r));
}

/// Whether effect `i` takes, with the outcome `r`, what is given under its own name, or
/// a table without entries where nothing is.
pub open spec fn taken_at(
    effects: Seq<Box<dyn VideoEffect>>,
    after: Seq<Box<dyn VideoEffect>>,
    given: Map<Seq<char>, ParamValue>,
    i: int,
    r: Result<(), EffectError>,
) -> bool {
    exists|p: RawEffectParams|
        {
            &&& #[trigger] takes(effects, after, i, p, r)
            &&& given.contains_key(effects[i].rules().id) ==> p.stands_for(
                Some(given[effects[i].rules().id]@),
            )
            &&& !given.contains_key(effects[i].rules().id) ==> p.table() == Some(
                params::no_entries(),
            )
        }
}

/// Whether the first `n` effects take what is given to them, and, where there is
/// another one, it fails with `r` and those after it stay as they are.
pub open spec fn configured_until(
    effects: Seq<Box<dyn VideoEffect>>,
    after: Seq<Box<dyn VideoEffect>>,
    given: Map<Seq<char>, ParamValue>,
    n: int,
    r: Result<(), EffectError>,
) -> bool {
    &&& forall|i: int| 0 <= i < n ==> #[trigger] taken_at(effects, after, given, i, Ok(()))
    &&& n < effects.len() ==> r is Err && taken_at(effects, after, given, n, r)
    &&& forall|k: int| n < k < effects.len() ==> after[k] == #[trigger] effects[k]
}

/// Every effect is prepared once, in order and with the context; the first failure is
/// the outcome, and the effects after it stay as they are.
pub proof fn law_each_prepared(
    chain: &mut EffectChain,
    context: &ProcessingContext,
    r: Result<(), EffectError>,
    i: int,
)
    requires
        call_ensures(EffectChain::prepare_all, (chain, context), r),
        0 <= i < old(chain).list().len(),
    ensures
        r is Ok ==> (old(chain).list()[i].rules().prepare)(
            old(chain).list()[i].state(),
            *context,
            final(chain).list()[i].state(),
            Ok(()),
        ),
        r is Err ==> exists|n: int|
            0 <= n < old(chain).list().len() && (#[trigger] old(chain).list()[n].rules().prepare)(
                old(chain).list()[n].state(),
                *context,
                final(chain).list()[n].state(),
                r,
            ) && (i < n ==> (old(chain).list()[i].rules().prepare)(
                old(chain).list()[i].state(),
                *context,
                final(chain).list()[i].state(),
                Ok(()),
            )) && (i > n ==> final(chain).list()[i] == old(chain).list()[i]),
{
    let (effects, after) = (old(chain).list(), final(chain).list());
    if r is Ok {
        assert(may_prepare_at(effects, after, i, *context, Ok(())));
    } else {
        let n = choose|n: int|
            0 <= n < effects.len() && #[trigger] may_prepare_at(effects, after, n, *context, r)
                && same_from(after, effects, n + 1) && forall|k: int|
                0 <= k < n ==> #[trigger] may_prepare_at(effects, after, k, *context, Ok(()));
        if i < n {
            assert(may_prepare_at(effects, after, i, *context, Ok(())));
        }
        if i > n {
            assert(same_at(after, effects, i));
        }
        assert((effects[n].rules().prepare)(effects[n].state(), *context, after[n].state(), r));
    }
}

/// The first failure of a list is a failure that only successes come before.
proof fn lemma_first_failure(all: Seq<Result<(), EffectError>>)
    ensures
        first_failure(all) is Ok <==> forall|i: int| 0 <= i < all.len() ==> #[trigger] all[i] is Ok,
        first_failure(all) is Err ==> exists|n: int|
            0 <= n < all.len() && #[trigger] all[n] == first_failure(all) && forall|k: int|
                0 <= k < n ==> #[trigger] all[k] is Ok,
    decreases all.len(),
{
    if all.len() > 0 {
        let fewer = all.drop_last();
        lemma_first_failure(fewer);
        assert forall|i: int| 0 <= i < fewer.len() implies #[trigger] fewer[i] == all[i] by {}
        if first_failure(fewer) is Err {
            let n = choose|n: int|
                0 <= n < fewer.len() && #[trigger] fewer[n] == first_failure(fewer) && forall|
                    k: int,
                |
                    0 <= k < n ==> #[trigger] fewer[k] is Ok;
            assert(all[n] == first_failure(all));
            assert forall|k: int| 0 <= k < n implies #[trigger] all[k] is Ok by {
                assert(fewer[k] is Ok);
            }
        } else {
            assert forall|k: int| 0 <= k < fewer.len() implies #[trigger] all[k] is Ok by {
                assert(fewer[k] is Ok);
            }
            let last = all.len() - 1;
            assert(all[last] == all.last());
        }
    }
}

/// Whether every effect is shut down, and effect `i` reports item `i`.
pub open spec fn all_reported(
    effects: Seq<Box<dyn VideoEffect>>,
    after: Seq<Box<dyn VideoEffect>>,
    all: Seq<Result<(), EffectError>>,
) -> bool {
    &&& all.len() == effects.len()
    &&& forall|i: int|
        0 <= i < effects.len() ==> (#[trigger] effects[i].rules().shut_down)(
            effects[i].state(),
            after[i].state(),
            all[i],
        )
}

/// Shutting down reaches every effect, whatever the others report; the outcome is a
/// success where all succeed and otherwise the first failure.
pub proof fn law_shutdown_reaches_all(chain: &mut EffectChain, r: Result<(), EffectError>)
    requires
        call_ensures(EffectChain::shutdown_all, (chain,), r),
    ensures
        exists|all: Seq<Result<(), EffectError>>|
            {
                &&& #[trigger] all_reported(old(chain).list(), final(chain).list(), all)
                &&& r is Ok <==> forall|i: int| 0 <= i < all.len() ==> #[trigger] all[i] is Ok
                &&& r is Err ==> exists|n: int|
                    0 <= n < all.len() && #[trigger] all[n] == r && forall|k: int|
                        0 <= k < n ==> #[trigger] all[k] is Ok
            },
{
    let (effects, after) = (old(chain).list(), final(chain).list());
    let all = choose|all: Seq<Result<(), EffectError>>| #[trigger]
        shut_down(effects, after, all) && r == first_failure(all);
    lemma_first_failure(all);
    assert forall|i: int| 0 <= i < effects.len() implies (#[trigger] effects[i].rules().shut_down)(
        effects[i].state(),
        after[i].state(),
        all[i],
    ) by {
        assert(may_shut_down_at(effects, after, i, all[i]));
    }
    assert(all_reported(effects, after, all));
}

/// The names come in the order of the effects.
pub proof fn law_names_in_order(chain: &EffectChain, r: Vec<&'static str>, i: int)
    requires
        call_ensures(EffectChain::names, (chain,), r),
    ensures
        r@.len() == chain.list().len(),
        0 <= i < r@.len() ==> r@[i]@ == chain.list()[i].rules().id,
{
    if 0 <= i < r@.len() {
        assert(r@[i]@ == id_at(chain.list(), i));
    }
}

} // verus!
