//! Registry of mask effects.

use vstd::prelude::*;
use crate::context::EffectState;
use crate::error::EffectError;
use crate::mask_effects;
use crate::mask_effects::dilate::{self, DilateMaskEffect};
use crate::mask_effects::feather::{self, FeatherMaskEffect};
use crate::mask_effects::invert::InvertMaskEffect;
use crate::mask_effects::largest_blob::{self, LargestBlobMaskEffect};
use crate::mask_effects::passthrough::PassthroughMaskEffect;
use crate::mask_effects::smooth_temporal::{self, SmoothTemporalMaskEffect};
use crate::mask_effects::threshold::{self, ThresholdMaskEffect};
use crate::metadata;
use crate::metadata::EffectMetadata;
use crate::params::RawEffectParams;
use crate::plane::MaskEffect;
use crate::registry;
use crate::registry::{EffectFactory, EffectRegistry, Entry, NewEffect};

verus! {

/// Name-keyed map of mask-effect factories.
pub struct MaskEffectRegistry {
    entries: EffectRegistry<dyn MaskEffect>,
}

impl View for MaskEffectRegistry {
    type V = Map<Seq<char>, Entry<dyn MaskEffect>>;

    closed spec fn view(&self) -> Map<Seq<char>, Entry<dyn MaskEffect>> {
        self.entries@
    }
}

impl MaskEffectRegistry {
    /// Whether the names ascend.
    pub closed spec fn wf(&self) -> bool {
        self.entries.wf() && self.entries.holds() == "mask"@
    }

    /// The registered names, in order.
    pub closed spec fn listing(&self) -> Seq<Seq<char>> {
        self.entries.listing()
    }

    /// Create an empty registry.
    #[must_use]
    pub fn new() -> (r: Self)
        ensures
            r.wf(),
            r@ == Map::<Seq<char>, Entry<dyn MaskEffect>>::empty(),
            r.listing().len() == 0,
    {
        MaskEffectRegistry { entries: EffectRegistry::empty("mask") }
    }

    /// The registry as a generic one.
    pub closed spec fn generic(&self) -> &EffectRegistry<dyn MaskEffect> {
        &self.entries
    }

    /// The registry as a generic one.
    pub(crate) fn as_registry(&self) -> (r: &EffectRegistry<dyn MaskEffect>)
        requires
            self.wf(),
        ensures
            r == self.generic(),
            r.wf(),
            r@ == self@,
            r.holds() == "mask"@,
    {
        &self.entries
    }

    /// Register an entry under the canonical name; an earlier one of that name
    /// is replaced.
    pub fn register(&mut self, name: &'static str, entry: Entry<dyn MaskEffect>)
        requires
            old(self).wf(),
        ensures
            final(self).wf(),
            final(self)@ == old(self)@.insert(name@, entry),
    {
        self.entries.register(name, entry);
    }

    /// Look up an entry.
    #[must_use]
    pub fn get(&self, name: &str) -> (r: Option<&Entry<dyn MaskEffect>>)
        requires
            self.wf(),
        ensures
            match r {
                Some(entry) => self@.contains_key(name@) && self@[name@] == *entry,
                None => !self@.contains_key(name@),
            },
    {
        self.entries.get(name)
    }

    /// Look up the metadata for a registered name.
    #[must_use]
    pub fn metadata(&self, name: &str) -> (r: Option<EffectMetadata>)
        requires
            self.wf(),
        ensures
            match r {
                Some(m) => self@.contains_key(name@) && self@[name@].metadata == m,
                None => !self@.contains_key(name@),
            },
    {
        self.entries.metadata(name)
    }

    /// Metadata of every registered effect, in name order.
    #[must_use]
    pub fn iter_metadata(&self) -> (r: Vec<EffectMetadata>)
        requires
            self.wf(),
        ensures
            r@.len() == self.listing().len(),
            forall|i: int|
                0 <= i < r@.len() ==> self@.contains_key(#[trigger] self.listing()[i]) && r@[i]
                    == self@[self.listing()[i]].metadata,
    {
        self.entries.iter_metadata()
    }

    /// Sorted list of registered effect names.
    #[must_use]
    pub fn names(&self) -> (r: Vec<&'static str>)
        ensures
            r@.map_values(|s: &'static str| s@) == self.listing(),
    {
        self.entries.names()
    }

    /// Number of registered factories.
    #[must_use]
    pub fn len(&self) -> (r: usize)
        ensures
            r == self.listing().len(),
    {
        self.entries.len()
    }

    /// Whether no factory has been registered.
    #[must_use]
    pub fn is_empty(&self) -> (r: bool)
        ensures
            r == (self.listing().len() == 0),
    {
        self.entries.is_empty()
    }

    /// Whether a factory is registered under `name`.
    #[must_use]
    pub fn contains(&self, name: &str) -> (r: bool)
        requires
            self.wf(),
        ensures
            r == self@.contains_key(name@),
    {
        self.entries.contains(name)
    }

    /// Build a chain from a list of effect names; the first unknown name is
    /// refused.
    pub fn build_chain(&self, names: &[String]) -> (r: Result<
        Vec<NewEffect<dyn MaskEffect>>,
        EffectError,
    >)
        requires
            self.wf(),
        ensures
            match r {
                Ok(chain) => {
                    &&& chain@.len() == names@.len()
                    &&& forall|i: int|
                        0 <= i < names@.len() ==> self@.contains_key((#[trigger] names@[i])@)
                            && self@[names@[i]@].factory.may_build(chain@[i])
                },
                Err(e) => exists|i: int|
                    0 <= i < names@.len() && !self@.contains_key((#[trigger] names@[i])@)
                        && registry::unknown_name(e, "mask"@, names@[i]@) && forall|k: int|
                        0 <= k < i ==> self@.contains_key((#[trigger] names@[k])@),
            },
    {
        self.entries.build_chain(names)
    }

    /// The names are listed once each, in ascending order.
    pub proof fn law_listing(&self)
        requires
            self.wf(),
        ensures
            forall|i: int, j: int|
                0 <= i < j < self.listing().len() ==> crate::text::precedes(
                    #[trigger] self.listing()[i],
                    #[trigger] self.listing()[j],
                ),
            forall|name: Seq<char>| #[trigger]
                self@.contains_key(name) <==> self.listing().contains(name),
    {
        self.entries.law_listing();
    }
}

impl Default for MaskEffectRegistry {
    fn default() -> (r: Self)
        ensures
            r.wf(),
            r@ == Map::<Seq<char>, Entry<dyn MaskEffect>>::empty(),
    {
        MaskEffectRegistry::new()
    }
}

/// Whether an effect has the rules of `w` and holds what `w` holds.
pub open spec fn acts_as<W: MaskEffect>(made: NewEffect<dyn MaskEffect>, w: W) -> bool {
    &&& made.effect.rules() == w.rules()
    &&& made.effect.state() == w.state()
}

/// Whether an effect may be configured with the outcome `r` and hold `after`
/// then.
pub open spec fn may_take(
    made: NewEffect<dyn MaskEffect>,
    params: RawEffectParams,
    after: EffectState,
    r: Result<(), EffectError>,
) -> bool {
    (made.effect.rules().configure)(made.effect.state(), params, after, r)
}

/// Makes [`PassthroughMaskEffect`]s.
struct PassthroughFactory;

impl EffectFactory<dyn MaskEffect> for PassthroughFactory {
    open spec fn may_build(&self, made: NewEffect<dyn MaskEffect>) -> bool {
        exists|w: PassthroughMaskEffect| #[trigger] acts_as(made, w)
    }

    fn build(&self) -> (r: NewEffect<dyn MaskEffect>) {
        let effect = PassthroughMaskEffect::new();
        let ghost w = effect;
        let made: NewEffect<dyn MaskEffect> = NewEffect { effect: Box::new(effect) };
        assert(acts_as(made, w));
        made
    }
}

/// Makes [`LargestBlobMaskEffect`]s.
struct LargestBlobFactory;

impl EffectFactory<dyn MaskEffect> for LargestBlobFactory {
    open spec fn may_build(&self, made: NewEffect<dyn MaskEffect>) -> bool {
        exists|w: LargestBlobMaskEffect|
            w.level() == largest_blob::DEFAULT_LEVEL && #[trigger] acts_as(made, w)
    }

    fn build(&self) -> (r: NewEffect<dyn MaskEffect>) {
        let effect = LargestBlobMaskEffect::new();
        let ghost w = effect;
        let made: NewEffect<dyn MaskEffect> = NewEffect { effect: Box::new(effect) };
        assert(acts_as(made, w));
        made
    }
}

/// Makes [`ThresholdMaskEffect`]s.
struct ThresholdFactory;

impl EffectFactory<dyn MaskEffect> for ThresholdFactory {
    open spec fn may_build(&self, made: NewEffect<dyn MaskEffect>) -> bool {
        exists|w: ThresholdMaskEffect|
            w.level() == threshold::DEFAULT_LEVEL && #[trigger] acts_as(made, w)
    }

    fn build(&self) -> (r: NewEffect<dyn MaskEffect>) {
        let effect = ThresholdMaskEffect::new();
        let ghost w = effect;
        let made: NewEffect<dyn MaskEffect> = NewEffect { effect: Box::new(effect) };
        assert(acts_as(made, w));
        made
    }
}

/// Makes [`DilateMaskEffect`]s.
struct DilateFactory;

impl EffectFactory<dyn MaskEffect> for DilateFactory {
    open spec fn may_build(&self, made: NewEffect<dyn MaskEffect>) -> bool {
        exists|w: DilateMaskEffect|
            w.iterations() == dilate::DEFAULT_ITERATIONS && #[trigger] acts_as(made, w)
    }

    fn build(&self) -> (r: NewEffect<dyn MaskEffect>) {
        let effect = DilateMaskEffect::new();
        let ghost w = effect;
        let made: NewEffect<dyn MaskEffect> = NewEffect { effect: Box::new(effect) };
        assert(acts_as(made, w));
        made
    }
}

/// Makes [`InvertMaskEffect`]s around one `complement` function.
struct InvertFactory<F: Fn(u32) -> u32 + Send + Sync + Copy + 'static> {
    complement: F,
}

impl<F: Fn(u32) -> u32 + Send + Sync + Copy + 'static> InvertFactory<F> {
    #[verifier::type_invariant]
    spec fn total(self) -> bool {
        forall|v: u32| call_requires(self.complement, (v,))
    }
}

impl<F: Fn(u32) -> u32 + Send + Sync + Copy + 'static> EffectFactory<
    dyn MaskEffect,
> for InvertFactory<F> {
    closed spec fn may_build(&self, made: NewEffect<dyn MaskEffect>) -> bool {
        exists|w: InvertMaskEffect<F>| w.kernel() == self.complement && #[trigger] acts_as(made, w)
    }

    fn build(&self) -> (r: NewEffect<dyn MaskEffect>) {
        proof {
            use_type_invariant(self);
        }
        let effect = InvertMaskEffect::new(self.complement);
        let ghost w = effect;
        let made: NewEffect<dyn MaskEffect> = NewEffect { effect: Box::new(effect) };
        assert(acts_as(made, w));
        made
    }
}

/// Makes [`SmoothTemporalMaskEffect`]s around one `blend` function.
struct SmoothTemporalFactory<F: Fn(u32, u32, u32) -> u32 + Send + Sync + Copy + 'static> {
    blend: F,
}

impl<F: Fn(u32, u32, u32) -> u32 + Send + Sync + Copy + 'static> SmoothTemporalFactory<F> {
    #[verifier::type_invariant]
    spec fn total(self) -> bool {
        forall|f: u32, a: u32, b: u32| call_requires(self.blend, (f, a, b))
    }
}

impl<F: Fn(u32, u32, u32) -> u32 + Send + Sync + Copy + 'static> EffectFactory<
    dyn MaskEffect,
> for SmoothTemporalFactory<F> {
    closed spec fn may_build(&self, made: NewEffect<dyn MaskEffect>) -> bool {
        exists|w: SmoothTemporalMaskEffect<F>|
            w.factor() == smooth_temporal::DEFAULT_FACTOR && w.prev().len() == 0 && w.kernel()
                == self.blend && #[trigger] acts_as(made, w)
    }

    fn build(&self) -> (r: NewEffect<dyn MaskEffect>) {
        proof {
            use_type_invariant(self);
        }
        let effect = SmoothTemporalMaskEffect::new(self.blend);
        let ghost w = effect;
        let made: NewEffect<dyn MaskEffect> = NewEffect { effect: Box::new(effect) };
        assert(acts_as(made, w));
        made
    }
}

/// Makes [`FeatherMaskEffect`]s around one `blur` function.
struct FeatherFactory<F: Fn(Vec<u32>, u32, u32, u32) -> Vec<u32> + Send + Sync + Copy + 'static> {
    blur: F,
}

impl<F: Fn(Vec<u32>, u32, u32, u32) -> Vec<u32> + Send + Sync + Copy + 'static> FeatherFactory<F> {
    #[verifier::type_invariant]
    spec fn total(self) -> bool {
        forall|m: Vec<u32>, w: u32, h: u32, r: u32|
            m@.len() == w * h ==> call_requires(self.blur, (m, w, h, r))
    }
}

impl<F: Fn(Vec<u32>, u32, u32, u32) -> Vec<u32> + Send + Sync + Copy + 'static> EffectFactory<
    dyn MaskEffect,
> for FeatherFactory<F> {
    closed spec fn may_build(&self, made: NewEffect<dyn MaskEffect>) -> bool {
        exists|w: FeatherMaskEffect<F>|
            w.radius() == feather::DEFAULT_RADIUS && w.kernel() == self.blur && #[trigger] acts_as(
                made,
                w,
            )
    }

    fn build(&self) -> (r: NewEffect<dyn MaskEffect>) {
        proof {
            use_type_invariant(self);
        }
        let effect = FeatherMaskEffect::new(self.blur);
        let ghost w = effect;
        let made: NewEffect<dyn MaskEffect> = NewEffect { effect: Box::new(effect) };
        assert(acts_as(made, w));
        made
    }
}

/// Whether an entry describes `name` and makes nothing but effects of that name.
pub open spec fn titled(e: Entry<dyn MaskEffect>, name: Seq<char>) -> bool {
    &&& e.metadata.name@ == name
    &&& forall|made: NewEffect<dyn MaskEffect>| #[trigger]
        e.factory.may_build(made) ==> made.effect.rules().id == name
}

/// Whether the effects that an entry makes accept the parameters that its
/// description defaults to.
pub open spec fn accepts_defaults(e: Entry<dyn MaskEffect>) -> bool {
    forall|
        made: NewEffect<dyn MaskEffect>,
        params: RawEffectParams,
        after: EffectState,
        r: Result<(), EffectError>,
    |
        #![trigger e.factory.may_build(made), may_take(made, params, after, r)]
        e.factory.may_build(made) && params.table() == Some(
            metadata::default_entries(e.metadata.params@),
        ) && may_take(made, params, after, r) ==> r is Ok
}

/// Whether every effect that an entry makes does what some `W` does that starts
/// out as `start` says.
pub open spec fn makes<W: MaskEffect>(e: Entry<dyn MaskEffect>, start: spec_fn(W) -> bool) -> bool {
    forall|made: NewEffect<dyn MaskEffect>| #[trigger]
        e.factory.may_build(made) ==> exists|w: W| start(w) && #[trigger] acts_as(made, w)
}

fn passthrough_entry() -> (r: Entry<dyn MaskEffect>)
    ensures
        titled(r, PassthroughMaskEffect::NAME@),
        accepts_defaults(r),
        makes(r, |w: PassthroughMaskEffect| true),
{
    let metadata = PassthroughMaskEffect::metadata();
    let r = Entry { factory: Box::new(PassthroughFactory), metadata };
    r
}

fn largest_blob_entry() -> (r: Entry<dyn MaskEffect>)
    ensures
        titled(r, LargestBlobMaskEffect::NAME@),
        accepts_defaults(r),
        makes(r, |w: LargestBlobMaskEffect| w.level() == largest_blob::DEFAULT_LEVEL),
{
    let metadata = LargestBlobMaskEffect::metadata();
    let r = Entry { factory: Box::new(LargestBlobFactory), metadata };
    proof {
        assert forall|
            made: NewEffect<dyn MaskEffect>,
            params: RawEffectParams,
            after: EffectState,
            outcome: Result<(), EffectError>,
        |
            #![trigger r.factory.may_build(made), may_take(made, params, after, outcome)]
            r.factory.may_build(made) && params.table() == Some(
                metadata::default_entries(r.metadata.params@),
            ) && may_take(made, params, after, outcome) implies outcome is Ok by {
            mask_effects::law_unit_default_accepted(
                metadata.params@,
                params,
                "level"@,
                largest_blob::DEFAULT_LEVEL,
            );
        }
    }
    r
}

fn threshold_entry() -> (r: Entry<dyn MaskEffect>)
    ensures
        titled(r, ThresholdMaskEffect::NAME@),
        accepts_defaults(r),
        makes(r, |w: ThresholdMaskEffect| w.level() == threshold::DEFAULT_LEVEL),
{
    let metadata = ThresholdMaskEffect::metadata();
    let r = Entry { factory: Box::new(ThresholdFactory), metadata };
    proof {
        assert forall|
            made: NewEffect<dyn MaskEffect>,
            params: RawEffectParams,
            after: EffectState,
            outcome: Result<(), EffectError>,
        |
            #![trigger r.factory.may_build(made), may_take(made, params, after, outcome)]
            r.factory.may_build(made) && params.table() == Some(
                metadata::default_entries(r.metadata.params@),
            ) && may_take(made, params, after, outcome) implies outcome is Ok by {
            mask_effects::law_unit_default_accepted(
                metadata.params@,
                params,
                "level"@,
                threshold::DEFAULT_LEVEL,
            );
        }
    }
    r
}

fn dilate_entry() -> (r: Entry<dyn MaskEffect>)
    ensures
        titled(r, DilateMaskEffect::NAME@),
        accepts_defaults(r),
        makes(r, |w: DilateMaskEffect| w.iterations() == dilate::DEFAULT_ITERATIONS),
{
    let metadata = DilateMaskEffect::metadata();
    let r = Entry { factory: Box::new(DilateFactory), metadata };
    proof {
        assert forall|
            made: NewEffect<dyn MaskEffect>,
            params: RawEffectParams,
            after: EffectState,
            outcome: Result<(), EffectError>,
        |
            #![trigger r.factory.may_build(made), may_take(made, params, after, outcome)]
            r.factory.may_build(made) && params.table() == Some(
                metadata::default_entries(r.metadata.params@),
            ) && may_take(made, params, after, outcome) implies outcome is Ok by {
            mask_effects::law_integer_default_accepted(
                metadata.params@,
                params,
                "iterations"@,
                dilate::DEFAULT_ITERATIONS,
            );
        }
    }
    r
}

fn feather_entry<F>(blur: F) -> (r: Entry<dyn MaskEffect>) where
    F: Fn(Vec<u32>, u32, u32, u32) -> Vec<u32> + Send + Sync + Copy + 'static,

    requires
        forall|m: Vec<u32>, w: u32, h: u32, r: u32|
            m@.len() == w * h ==> call_requires(blur, (m, w, h, r)),
    ensures
        titled(r, FeatherMaskEffect::<F>::NAME@),
        accepts_defaults(r),
        makes(
            r,
            |w: FeatherMaskEffect<F>| w.radius() == feather::DEFAULT_RADIUS && w.kernel() == blur,
        ),
{
    let metadata = FeatherMaskEffect::<F>::metadata();
    let r = Entry { factory: Box::new(FeatherFactory { blur }), metadata };
    proof {
        assert forall|
            made: NewEffect<dyn MaskEffect>,
            params: RawEffectParams,
            after: EffectState,
            outcome: Result<(), EffectError>,
        |
            #![trigger r.factory.may_build(made), may_take(made, params, after, outcome)]
            r.factory.may_build(made) && params.table() == Some(
                metadata::default_entries(r.metadata.params@),
            ) && may_take(made, params, after, outcome) implies outcome is Ok by {
            mask_effects::law_integer_default_accepted(
                metadata.params@,
                params,
                "radius"@,
                feather::DEFAULT_RADIUS,
            );
        }
    }
    r
}

fn smooth_temporal_entry<F>(blend: F) -> (r: Entry<dyn MaskEffect>) where
    F: Fn(u32, u32, u32) -> u32 + Send + Sync + Copy + 'static,

    requires
        forall|f: u32, a: u32, b: u32| call_requires(blend, (f, a, b)),
    ensures
        titled(r, SmoothTemporalMaskEffect::<F>::NAME@),
        accepts_defaults(r),
        makes(
            r,
            |w: SmoothTemporalMaskEffect<F>|
                w.factor() == smooth_temporal::DEFAULT_FACTOR && w.prev().len() == 0 && w.kernel()
                    == blend,
        ),
{
    let metadata = SmoothTemporalMaskEffect::<F>::metadata();
    let r = Entry { factory: Box::new(SmoothTemporalFactory { blend }), metadata };
    proof {
        assert forall|
            made: NewEffect<dyn MaskEffect>,
            params: RawEffectParams,
            after: EffectState,
            outcome: Result<(), EffectError>,
        |
            #![trigger r.factory.may_build(made), may_take(made, params, after, outcome)]
            r.factory.may_build(made) && params.table() == Some(
                metadata::default_entries(r.metadata.params@),
            ) && may_take(made, params, after, outcome) implies outcome is Ok by {
            mask_effects::law_unit_default_accepted(
                metadata.params@,
                params,
                "factor"@,
                smooth_temporal::DEFAULT_FACTOR,
            );
        }
    }
    r
}

fn invert_entry<F>(complement: F) -> (r: Entry<dyn MaskEffect>) where
    F: Fn(u32) -> u32 + Send + Sync + Copy + 'static,

    requires
        forall|v: u32| call_requires(complement, (v,)),
    ensures
        titled(r, InvertMaskEffect::<F>::NAME@),
        accepts_defaults(r),
        makes(r, |w: InvertMaskEffect<F>| w.kernel() == complement),
{
    let metadata = InvertMaskEffect::<F>::metadata();
    let r = Entry { factory: Box::new(InvertFactory { complement }), metadata };
    r
}

/// Whether `name` is one of the built-in mask effects.
pub open spec fn built_in(name: Seq<char>) -> bool {
    ||| name == "passthrough"@
    ||| name == "largest_blob"@
    ||| name == "threshold"@
    ||| name == "dilate"@
    ||| name == "feather"@
    ||| name == "smooth_temporal"@
    ||| name == "invert"@
}

/// A registry with the built-in mask effects.
///
/// `complement`, `blend` and `blur` are the arithmetic of the `invert`,
/// `smooth_temporal` and `feather` effects.
#[must_use]
pub fn default_registry<C, B, F>(complement: C, blend: B, blur: F) -> (r: MaskEffectRegistry) where
    C: Fn(u32) -> u32 + Send + Sync + Copy + 'static,
    B: Fn(u32, u32, u32) -> u32 + Send + Sync + Copy + 'static,
    F: Fn(Vec<u32>, u32, u32, u32) -> Vec<u32> + Send + Sync + Copy + 'static,

    requires
        forall|v: u32| call_requires(complement, (v,)),
        forall|f: u32, a: u32, b: u32| call_requires(blend, (f, a, b)),
        forall|m: Vec<u32>, w: u32, h: u32, r: u32|
            m@.len() == w * h ==> call_requires(blur, (m, w, h, r)),
    ensures
        r.wf(),
        forall|name: Seq<char>| #[trigger] r@.contains_key(name) <==> built_in(name),
        forall|name: Seq<char>| #[trigger] r@.contains_key(name) ==> titled(r@[name], name),
        forall|name: Seq<char>| #[trigger] r@.contains_key(name) ==> accepts_defaults(r@[name]),
        makes(r@[PassthroughMaskEffect::NAME@], |w: PassthroughMaskEffect| true),
        makes(
            r@[LargestBlobMaskEffect::NAME@],
            |w: LargestBlobMaskEffect| w.level() == largest_blob::DEFAULT_LEVEL,
        ),
        makes(
            r@[ThresholdMaskEffect::NAME@],
            |w: ThresholdMaskEffect| w.level() == threshold::DEFAULT_LEVEL,
        ),
        makes(
            r@[DilateMaskEffect::NAME@],
            |w: DilateMaskEffect| w.iterations() == dilate::DEFAULT_ITERATIONS,
        ),
        makes(
            r@[FeatherMaskEffect::<F>::NAME@],
            |w: FeatherMaskEffect<F>| w.radius() == feather::DEFAULT_RADIUS && w.kernel() == blur,
        ),
        makes(
            r@[SmoothTemporalMaskEffect::<B>::NAME@],
            |w: SmoothTemporalMaskEffect<B>|
                w.factor() == smooth_temporal::DEFAULT_FACTOR && w.prev().len() == 0 && w.kernel()
                    == blend,
        ),
        makes(r@[InvertMaskEffect::<C>::NAME@], |w: InvertMaskEffect<C>| w.kernel() == complement),
{
    proof {
        reveal_strlit("passthrough");
        reveal_strlit("largest_blob");
        reveal_strlit("threshold");
        reveal_strlit("dilate");
        reveal_strlit("feather");
        reveal_strlit("smooth_temporal");
        reveal_strlit("invert");
        assert("passthrough"@.len() == 11 && "largest_blob"@.len() == 12);
        assert("threshold"@.len() == 9 && "feather"@.len() == 7);
        assert("smooth_temporal"@.len() == 15);
        assert("dilate"@.len() == 6 && "invert"@.len() == 6);
        assert("dilate"@[0] == 'd' && "invert"@[0] == 'i');
    }
    let mut registry = MaskEffectRegistry::new();
    registry.register(PassthroughMaskEffect::NAME, passthrough_entry());
    registry.register(LargestBlobMaskEffect::NAME, largest_blob_entry());
    registry.register(ThresholdMaskEffect::NAME, threshold_entry());
    registry.register(DilateMaskEffect::NAME, dilate_entry());
    registry.register(FeatherMaskEffect::<F>::NAME, feather_entry(blur));
    registry.register(SmoothTemporalMaskEffect::<B>::NAME, smooth_temporal_entry(blend));
    registry.register(InvertMaskEffect::<C>::NAME, invert_entry(complement));
    registry
}

} // verus!
