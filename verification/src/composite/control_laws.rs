//! What becomes of the sub-chains when a composite effect is prepared and when its
//! effects are switched, replaced and configured while it runs.

use vstd::prelude::*;
use crate::composite::effect::{CompositeEffect, SubChainPayload};
use crate::composite::slots::{self, Slot, SubEffectAdapter};
use crate::plane::SubchainKind;
use crate::context::ProcessingContext;
use crate::error::EffectError;
use crate::frame::PixelFormat;
use crate::params::{ParamModel, RawEffectParams};
use crate::pixel_math::PixelMath;
use crate::traits::{ModelLoader, VideoEffect};

verus! {

/// Whether a slot goes by a name.
pub open spec fn goes_by<E: ?Sized + SubEffectAdapter>(slot: Slot<E>, name: Seq<char>) -> bool {
    slot.held().rulebook().id == name
}

/// Whether a slot comes out right when the effects of a name are switched: one of
/// another name stays as it is, one of the name has the flag, keeps what it held where
/// the flag is not raised, and forgets what it kept of earlier frames where it is.
pub open spec fn switched<E: ?Sized + SubEffectAdapter>(
    before: Slot<E>,
    after: Slot<E>,
    name: Seq<char>,
    enabled: bool,
) -> bool {
    &&& !goes_by(before, name) ==> after == before
    &&& goes_by(before, name) ==> {
        &&& after.on() == enabled
        &&& after.held().rulebook() == before.held().rulebook()
        &&& before.on() == enabled ==> after == before
        &&& before.on() && !enabled ==> after.held() == before.held()
        &&& !before.on() && enabled ==> (before.held().rulebook().reset)(
            before.held().keeps(),
            after.held().keeps(),
        )
    }
}

/// Whether a chain comes out right when the effects of a name are switched: every slot
/// does, the outcome is an error where no slot goes by the name, and otherwise says
/// whether a flag has changed.
pub open spec fn all_switched<E: ?Sized + SubEffectAdapter>(
    before: Seq<Slot<E>>,
    after: Seq<Slot<E>>,
    name: Seq<char>,
    enabled: bool,
    r: Result<bool, EffectError>,
) -> bool {
    &&& after.len() == before.len()
    &&& forall|i: int|
        0 <= i < before.len() ==> switched(#[trigger] before[i], after[i], name, enabled)
    &&& r is Ok <==> exists|i: int| 0 <= i < before.len() && goes_by(#[trigger] before[i], name)
    &&& r == Ok::<bool, EffectError>(true) <==> exists|i: int|
        0 <= i < before.len() && goes_by(#[trigger] before[i], name) && before[i].on() != enabled
}

/// Setting the flag of a name switches its slots.
proof fn lemma_switched<E: ?Sized + SubEffectAdapter>(
    before: Seq<Slot<E>>,
    after: Seq<Slot<E>>,
    name: Seq<char>,
    enabled: bool,
    section: SubchainKind,
    r: Result<bool, EffectError>,
)
    requires
        slots::flag_set(before, after, name, enabled, section, r),
    ensures
        all_switched(before, after, name, enabled, r),
{
    assert forall|i: int| 0 <= i < before.len() implies switched(
        #[trigger] before[i],
        after[i],
        name,
        enabled,
    ) by {
        assert(slots::slot_set(before, after, i, name, enabled));
    }
    if slots::has_name(before, name) {
        let i = choose|i: int| 0 <= i < before.len() && #[trigger] slots::ident_at(before, i) == name;
        assert(goes_by(before[i], name));
    }
    if exists|i: int| 0 <= i < before.len() && goes_by(#[trigger] before[i], name) {
        let i = choose|i: int| 0 <= i < before.len() && goes_by(#[trigger] before[i], name);
        assert(slots::ident_at(before, i) == name);
    }
    if exists|i: int| 0 <= i < before.len() && #[trigger] slots::flips(before, i, name, enabled) {
        let i = choose|i: int|
            0 <= i < before.len() && #[trigger] slots::flips(before, i, name, enabled);
        assert(goes_by(before[i], name) && before[i].on() != enabled);
    }
    if exists|i: int|
        0 <= i < before.len() && goes_by(#[trigger] before[i], name) && before[i].on() != enabled {
        let i = choose|i: int|
            0 <= i < before.len() && goes_by(#[trigger] before[i], name) && before[i].on()
                != enabled;
        assert(slots::flips(before, i, name, enabled));
    }
}

/// Whether slot `i` is prepared: the effect goes from what it held to what it holds
/// under its own rules, and keeps rules and flag.
pub open spec fn prepared_at<E: ?Sized + SubEffectAdapter>(
    before: Seq<Slot<E>>,
    after: Seq<Slot<E>>,
    context: ProcessingContext,
    i: int,
    r: Result<(), EffectError>,
) -> bool {
    &&& (before[i].held().rulebook().prepare)(
        before[i].held().keeps(),
        context,
        after[i].held().keeps(),
        r,
    )
    &&& after[i].held().rulebook() == before[i].held().rulebook()
    &&& after[i].on() == before[i].on()
}

/// Whether every slot of a chain is prepared, the disabled ones too.
pub open spec fn all_prepared<E: ?Sized + SubEffectAdapter>(
    before: Seq<Slot<E>>,
    after: Seq<Slot<E>>,
    context: ProcessingContext,
) -> bool {
    &&& after.len() == before.len()
    &&& forall|i: int|
        0 <= i < before.len() ==> #[trigger] prepared_at(before, after, context, i, Ok(()))
}

/// A chain that is prepared has every slot prepared.
proof fn lemma_all_prepared<E: ?Sized + SubEffectAdapter>(
    before: Seq<Slot<E>>,
    after: Seq<Slot<E>>,
    context: ProcessingContext,
)
    requires
        slots::chain_prepared(before, after, context, Ok(())),
    ensures
        all_prepared(before, after, context),
{
    assert forall|i: int| 0 <= i < before.len() implies #[trigger] prepared_at(
        before,
        after,
        context,
        i,
        Ok(()),
    ) by {
        assert(slots::prepare_at(before, after, i, context, Ok(())));
        assert(slots::like_at(before, after, i));
    }
}

/// Whether a chain comes out right when another is put in its place: without a context
/// it stays; with one the new chain takes its place where every effect of it can be
/// prepared, and otherwise the chain stays and the first failure is the outcome.
pub open spec fn swapped<E: ?Sized + SubEffectAdapter>(
    before: Seq<Slot<E>>,
    given: Seq<Slot<E>>,
    context: Option<ProcessingContext>,
    after: Seq<Slot<E>>,
    r: Result<(), EffectError>,
) -> bool {
    &&& context is None ==> r is Err
    &&& r is Err ==> after == before
    &&& context matches Some(c) ==> (r is Ok ==> all_prepared(given, after, c))
    &&& context matches Some(c) ==> (r is Err ==> exists|left: Seq<Slot<E>>, i: int|
        0 <= i < given.len() && #[trigger] prepared_at(given, left, c, i, r))
}

/// Replacing a chain swaps it.
proof fn lemma_swapped<E: ?Sized + SubEffectAdapter>(
    before: Seq<Slot<E>>,
    given: Seq<Slot<E>>,
    context: Option<ProcessingContext>,
    after: Seq<Slot<E>>,
    r: Result<(), EffectError>,
)
    requires
        slots::replaced(before, given, context, after, r),
    ensures
        swapped(before, given, context, after, r),
{
    if let Some(c) = context {
        if r is Ok {
            lemma_all_prepared(given, after, c);
        } else {
            let left = choose|left: Seq<Slot<E>>| #[trigger]
                slots::chain_prepared(given, left, c, r);
            let i = choose|i: int|
                {
                    &&& 0 <= i < given.len()
                    &&& #[trigger] slots::prepare_at(given, left, i, c, r)
                    &&& slots::prepared_below(given, left, i, c)
                    &&& slots::same_from(left, given, i + 1)
                };
            assert(slots::like_at(given, left, i));
            assert(prepared_at(given, left, c, i, r));
        }
    }
}

/// Whether a chain comes out right when parameters go to a name: the first slot of the
/// name takes them with the outcome, every other slot stays, and without such a slot
/// the outcome is an error.
pub open spec fn retuned<E: ?Sized + SubEffectAdapter>(
    before: Seq<Slot<E>>,
    after: Seq<Slot<E>>,
    name: Seq<char>,
    params: RawEffectParams,
    r: Result<(), EffectError>,
) -> bool {
    &&& after.len() == before.len()
    &&& (forall|i: int| 0 <= i < before.len() ==> !goes_by(#[trigger] before[i], name)) ==> r is Err
        && after == before
    &&& (exists|i: int| 0 <= i < before.len() && goes_by(#[trigger] before[i], name)) ==> exists|
        n: int,
    | #[trigger]
        retuned_at(before, after, name, params, n, r)
}

/// Whether slot `n` is the first of the name and takes the parameters.
pub open spec fn retuned_at<E: ?Sized + SubEffectAdapter>(
    before: Seq<Slot<E>>,
    after: Seq<Slot<E>>,
    name: Seq<char>,
    params: RawEffectParams,
    n: int,
    r: Result<(), EffectError>,
) -> bool {
    &&& 0 <= n < before.len()
    &&& goes_by(before[n], name)
    &&& (before[n].held().rulebook().configure)(
        before[n].held().keeps(),
        params,
        after[n].held().keeps(),
        r,
    )
    &&& after[n].held().rulebook() == before[n].held().rulebook()
    &&& after[n].on() == before[n].on()
    &&& forall|i: int| 0 <= i < n ==> !goes_by(#[trigger] before[i], name)
    &&& forall|i: int| 0 <= i < before.len() && i != n ==> after[i] == #[trigger] before[i]
}

/// Configuring the first effect of a name retunes the chain.
proof fn lemma_retuned<E: ?Sized + SubEffectAdapter>(
    before: Seq<Slot<E>>,
    after: Seq<Slot<E>>,
    name: Seq<char>,
    params: RawEffectParams,
    section: SubchainKind,
    r: Result<(), EffectError>,
)
    requires
        slots::reconfigured(before, after, name, params, section, r),
    ensures
        retuned(before, after, name, params, r),
{
    if exists|i: int| 0 <= i < before.len() && goes_by(#[trigger] before[i], name) {
        let k = choose|i: int| 0 <= i < before.len() && goes_by(#[trigger] before[i], name);
        assert(slots::ident_at(before, k) == name);
        assert(slots::has_name(before, name));
        let n = choose|i: int|
            0 <= i < before.len() && #[trigger] slots::first_named(before, i, name)
                && slots::configure_at(before, after, i, params, r);
        assert(slots::like_at(before, after, n));
        assert forall|i: int| 0 <= i < n implies !goes_by(#[trigger] before[i], name) by {
            assert(slots::ident_at(before, i) != name);
        }
        assert forall|i: int| 0 <= i < before.len() && i != n implies after[i]
            == #[trigger] before[i] by {
            if slots::first_named(before, i, name) {
                assert(slots::ident_at(before, i) == name && slots::ident_at(before, n) == name);
            }
            assert(slots::same_at(after, before, i));
        }
        assert(retuned_at(before, after, name, params, n, r));
    } else {
        assert forall|i: int| 0 <= i < before.len() implies slots::same_at(after, before, i) by {
            assert(!goes_by(before[i], name));
        }
        if slots::has_name(before, name) {
            let i = choose|i: int|
                0 <= i < before.len() && #[trigger] slots::ident_at(before, i) == name;
            assert(goes_by(before[i], name));
        }
        assert(after =~= before) by {
            assert forall|i: int| 0 <= i < before.len() implies after[i] == before[i] by {
                assert(slots::same_at(after, before, i));
            }
        }
    }
}

/// Whether a list names the disabled slots of a chain, in order: `at` are their
/// positions, one after the other, and none is left out.
pub open spec fn names_disabled<E: ?Sized + SubEffectAdapter>(
    chain: Seq<Slot<E>>,
    list: Seq<&'static str>,
    at: Seq<int>,
) -> bool {
    &&& at.len() == list.len()
    &&& forall|k: int|
        0 <= k < at.len() ==> 0 <= #[trigger] at[k] < chain.len() && !chain[at[k]].on()
            && goes_by(chain[at[k]], list[k]@)
    &&& forall|k: int, l: int| 0 <= k < l < at.len() ==> #[trigger] at[k] < #[trigger] at[l]
    &&& forall|i: int| 0 <= i < chain.len() && !(#[trigger] chain[i]).on() ==> at.contains(i)
}

/// Positions of the disabled slots among the first `n`.
proof fn lemma_disabled<E: ?Sized + SubEffectAdapter>(chain: Seq<Slot<E>>, n: int) -> (at: Seq<int>)
    requires
        0 <= n <= chain.len(),
    ensures
        at.len() == slots::disabled_below(chain, n).len(),
        forall|k: int|
            0 <= k < at.len() ==> 0 <= #[trigger] at[k] < n && !chain[at[k]].on() && goes_by(
                chain[at[k]],
                slots::disabled_below(chain, n)[k],
            ),
        forall|k: int, l: int| 0 <= k < l < at.len() ==> #[trigger] at[k] < #[trigger] at[l],
        forall|i: int| 0 <= i < n && !(#[trigger] chain[i]).on() ==> at.contains(i),
    decreases n,
{
    if n == 0 {
        Seq::empty()
    } else {
        let fewer = lemma_disabled(chain, n - 1);
        if slots::on_at(chain, n - 1) {
            fewer
        } else {
            let at = fewer.push(n - 1);
            assert forall|i: int| 0 <= i < n && !(#[trigger] chain[i]).on() implies at.contains(i)
                by {
                if i < n - 1 {
                    assert(fewer.contains(i));
                    let k = choose|k: int| 0 <= k < fewer.len() && fewer[k] == i;
                    assert(at[k] == i);
                } else {
                    assert(at[at.len() - 1] == i);
                }
            }
            at
        }
    }
}

/// Switching the effects of a name touches the slots of that name in the sub-chain that
/// is meant and nothing else.
pub proof fn law_effect_switched<M: PixelMath, L: ModelLoader>(
    e: &mut CompositeEffect<M, L>,
    section: SubchainKind,
    name: &str,
    enabled: bool,
    r: Result<bool, EffectError>,
)
    requires
        call_ensures(
            CompositeEffect::<M, L>::set_effect_enabled,
            (e, section, name, enabled),
            r,
        ),
    ensures
        final(e).stage() == old(e).stage(),
        final(e).width() == old(e).width(),
        final(e).height() == old(e).height(),
        final(e).stored() == old(e).stored(),
        !(section == SubchainKind::Mask) ==> final(e).masks() == old(e).masks(),
        !(section == SubchainKind::Background) ==> final(e).backs() == old(e).backs(),
        !(section == SubchainKind::Foreground) ==> final(e).fronts() == old(e).fronts(),
        !(section == SubchainKind::Post) ==> final(e).posts() == old(e).posts(),
        section == SubchainKind::Mask ==> all_switched(old(e).masks(), final(e).masks(), name@, enabled, r),
        section == SubchainKind::Background ==> all_switched(old(e).backs(), final(e).backs(), name@, enabled, r),
        section == SubchainKind::Foreground ==> all_switched(old(e).fronts(), final(e).fronts(), name@, enabled, r),
        section == SubchainKind::Post ==> all_switched(old(e).posts(), final(e).posts(), name@, enabled, r),
{
    match section {
        SubchainKind::Mask => {
            lemma_switched(old(e).masks(), final(e).masks(), name@, enabled, section, r);
        },
        SubchainKind::Background => {
            lemma_switched(old(e).backs(), final(e).backs(), name@, enabled, section, r);
        },
        SubchainKind::Foreground => {
            lemma_switched(old(e).fronts(), final(e).fronts(), name@, enabled, section, r);
        },
        SubchainKind::Post => {
            lemma_switched(old(e).posts(), final(e).posts(), name@, enabled, section, r);
        },
    }
}

/// Replacing a sub-chain touches the one that is meant and nothing else.
pub proof fn law_subchain_replaced<M: PixelMath, L: ModelLoader>(
    e: &mut CompositeEffect<M, L>,
    payload: SubChainPayload,
    r: Result<(), EffectError>,
)
    requires
        call_ensures(CompositeEffect::<M, L>::replace_subchain, (e, payload), r),
    ensures
        final(e).stage() == old(e).stage(),
        final(e).width() == old(e).width(),
        final(e).height() == old(e).height(),
        final(e).stored() == old(e).stored(),
        !(payload is Mask) ==> final(e).masks() == old(e).masks(),
        !(payload is Background) ==> final(e).backs() == old(e).backs(),
        !(payload is Foreground) ==> final(e).fronts() == old(e).fronts(),
        !(payload is Post) ==> final(e).posts() == old(e).posts(),
        payload matches SubChainPayload::Mask(v) ==> swapped(old(e).masks(), v@, old(e).stored(), final(e).masks(), r),
        payload matches SubChainPayload::Background(v) ==> swapped(old(e).backs(), v@, old(e).stored(), final(e).backs(), r),
        payload matches SubChainPayload::Foreground(v) ==> swapped(old(e).fronts(), v@, old(e).stored(), final(e).fronts(), r),
        payload matches SubChainPayload::Post(v) ==> swapped(old(e).posts(), v@, old(e).stored(), final(e).posts(), r),
{
    match payload {
        SubChainPayload::Mask(v) => {
            lemma_swapped(old(e).masks(), v@, old(e).stored(), final(e).masks(), r);
        },
        SubChainPayload::Background(v) => {
            lemma_swapped(old(e).backs(), v@, old(e).stored(), final(e).backs(), r);
        },
        SubChainPayload::Foreground(v) => {
            lemma_swapped(old(e).fronts(), v@, old(e).stored(), final(e).fronts(), r);
        },
        SubChainPayload::Post(v) => {
            lemma_swapped(old(e).posts(), v@, old(e).stored(), final(e).posts(), r);
        },
    }
}

/// Configuring an effect touches the first effect of the name in the sub-chain that is
/// meant and nothing else.
pub proof fn law_effect_retuned<M: PixelMath, L: ModelLoader>(
    e: &mut CompositeEffect<M, L>,
    section: SubchainKind,
    name: &str,
    params: RawEffectParams,
    r: Result<(), EffectError>,
)
    requires
        call_ensures(
            CompositeEffect::<M, L>::reconfigure_named_effect,
            (e, section, name, params),
            r,
        ),
    ensures
        final(e).stage() == old(e).stage(),
        final(e).width() == old(e).width(),
        final(e).height() == old(e).height(),
        final(e).stored() == old(e).stored(),
        !(section == SubchainKind::Mask) ==> final(e).masks() == old(e).masks(),
        !(section == SubchainKind::Background) ==> final(e).backs() == old(e).backs(),
        !(section == SubchainKind::Foreground) ==> final(e).fronts() == old(e).fronts(),
        !(section == SubchainKind::Post) ==> final(e).posts() == old(e).posts(),
        section == SubchainKind::Mask ==> retuned(old(e).masks(), final(e).masks(), name@, params, r),
        section == SubchainKind::Background ==> retuned(old(e).backs(), final(e).backs(), name@, params, r),
        section == SubchainKind::Foreground ==> retuned(old(e).fronts(), final(e).fronts(), name@, params, r),
        section == SubchainKind::Post ==> retuned(old(e).posts(), final(e).posts(), name@, params, r),
{
    match section {
        SubchainKind::Mask => {
            lemma_retuned(old(e).masks(), final(e).masks(), name@, params, section, r);
        },
        SubchainKind::Background => {
            lemma_retuned(old(e).backs(), final(e).backs(), name@, params, section, r);
        },
        SubchainKind::Foreground => {
            lemma_retuned(old(e).fronts(), final(e).fronts(), name@, params, section, r);
        },
        SubchainKind::Post => {
            lemma_retuned(old(e).posts(), final(e).posts(), name@, params, section, r);
        },
    }
}

/// The disabled effects of a sub-chain are listed in order, none twice and none left out.
pub proof fn law_disabled_listed<M: PixelMath, L: ModelLoader>(
    e: &CompositeEffect<M, L>,
    section: SubchainKind,
    r: Vec<&'static str>,
)
    requires
        call_ensures(CompositeEffect::<M, L>::disabled_effects, (e, section), r),
    ensures
        section == SubchainKind::Mask ==> exists|at: Seq<int>| #[trigger] names_disabled(e.masks(), r@, at),
        section == SubchainKind::Background ==> exists|at: Seq<int>| #[trigger] names_disabled(e.backs(), r@, at),
        section == SubchainKind::Foreground ==> exists|at: Seq<int>| #[trigger] names_disabled(e.fronts(), r@, at),
        section == SubchainKind::Post ==> exists|at: Seq<int>| #[trigger] names_disabled(e.posts(), r@, at),
{
    let names = r@.map_values(|s: &'static str| s@);
    assert forall|k: int| 0 <= k < r@.len() implies #[trigger] names[k] == r@[k]@ by {}
    match section {
        SubchainKind::Mask => {
            let at = lemma_disabled(e.masks(), e.masks().len() as int);
            assert(names_disabled(e.masks(), r@, at));
        },
        SubchainKind::Background => {
            let at = lemma_disabled(e.backs(), e.backs().len() as int);
            assert(names_disabled(e.backs(), r@, at));
        },
        SubchainKind::Foreground => {
            let at = lemma_disabled(e.fronts(), e.fronts().len() as int);
            assert(names_disabled(e.fronts(), r@, at));
        },
        SubchainKind::Post => {
            let at = lemma_disabled(e.posts(), e.posts().len() as int);
            assert(names_disabled(e.posts(), r@, at));
        },
    }
}

/// A composite effect is prepared where the stream is RGB and its frames can be
/// counted, and then every effect of the four sub-chains is, the disabled ones too, with
/// the same context; the context is stored, and frames of its size are expected.  A
/// failure stores nothing.
pub proof fn law_composite_prepare<M: PixelMath, L: ModelLoader>(
    e: &mut CompositeEffect<M, L>,
    context: &ProcessingContext,
    r: Result<(), EffectError>,
)
    requires
        call_ensures(<CompositeEffect<M, L> as VideoEffect>::prepare, (e, context), r),
    ensures
        final(e).math() == old(e).math(),
        r is Err ==> final(e).stored() == old(e).stored() && final(e).width() == old(e).width()
            && final(e).height() == old(e).height(),
        context.format != PixelFormat::Rgb ==> r is Err && final(e).stage() == old(e).stage()
            && final(e).same_chains(old(e)),
        r is Ok ==> {
            &&& context.format == PixelFormat::Rgb
            &&& 3 * context.width * context.height <= usize::MAX
            &&& final(e).stored() == Some(*context)
            &&& final(e).width() == context.width
            &&& final(e).height() == context.height
            &&& final(e).stage()@.frame_w == context.width
            &&& final(e).stage()@.frame_h == context.height
            &&& final(e).stage()@.engine is Some
            &&& all_prepared(old(e).masks(), final(e).masks(), *context)
            &&& all_prepared(old(e).backs(), final(e).backs(), *context)
            &&& all_prepared(old(e).fronts(), final(e).fronts(), *context)
            &&& all_prepared(old(e).posts(), final(e).posts(), *context)
        },
{
    assert(context.width * context.height * 3 == 3 * context.width * context.height)
        by (nonlinear_arith);
    if r is Ok {
        lemma_all_prepared(old(e).masks(), final(e).masks(), *context);
        lemma_all_prepared(old(e).backs(), final(e).backs(), *context);
        lemma_all_prepared(old(e).fronts(), final(e).fronts(), *context);
        lemma_all_prepared(old(e).posts(), final(e).posts(), *context);
    }
}

/// A composite effect takes no parameters of its own: anything but a table without
/// entries is refused, and the effect stays as it is.
pub proof fn law_composite_configure<M: PixelMath, L: ModelLoader>(
    e: &mut CompositeEffect<M, L>,
    params: RawEffectParams,
    r: Result<(), EffectError>,
)
    requires
        call_ensures(<CompositeEffect<M, L> as VideoEffect>::configure, (e, params), r),
    ensures
        *final(e) == *old(e),
        r is Ok <==> params.table() == Some(Map::<Seq<char>, ParamModel>::empty()),
{
}

} // verus!
