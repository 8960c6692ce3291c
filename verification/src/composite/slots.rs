//! Sub-chains of the composite effect: effects with their enable flags.

use vstd::prelude::*;
use std::time::Instant;
use crate::composite::segmentation;
use crate::context::{EffectState, FrameContext, ProcessingContext};
use crate::error::EffectError;
use crate::frame;
use crate::metrics::{self, StageKey};
use crate::params::RawEffectParams;
use crate::plane::{
    EffectRules, FramePlane, MaskCall, MaskEffect, MaskPlane, PlaneCall, PlaneEffect, PostCall,
    PostEffect, SubchainKind,
};
use crate::text;

verus! {

/// Name under which the composite effect reports errors.
pub const COMPOSITE: &'static str = "composite";

/// A configured effect together with its enable flag.
pub struct Slot<E: ?Sized> {
    effect: Box<E>,
    enabled: bool,
}

/// What the three kinds of effects have in common.
pub trait SubEffectAdapter {
    /// What the effect is handed for a frame.
    type Call;

    /// What the effect may do.
    spec fn rulebook(&self) -> EffectRules<Self::Call>;

    /// What the effect holds.
    spec fn keeps(&self) -> EffectState;

    /// Name of the effect.
    fn name_str(&self) -> (r: &'static str)
        ensures
            r@ == self.rulebook().id,
    ;

    /// Configure the effect.
    fn configure_mut(&mut self, params: RawEffectParams) -> (r: Result<(), EffectError>)
        ensures
            (old(self).rulebook().configure)(old(self).keeps(), params, final(self).keeps(), r),
            final(self).rulebook() == old(self).rulebook(),
    ;

    /// Prepare the effect.
    fn prepare_mut(&mut self, context: &ProcessingContext) -> (r: Result<(), EffectError>)
        ensures
            (old(self).rulebook().prepare)(old(self).keeps(), *context, final(self).keeps(), r),
            final(self).rulebook() == old(self).rulebook(),
    ;

    /// Drop temporal state.
    fn reset_state_mut(&mut self)
        ensures
            (old(self).rulebook().reset)(old(self).keeps(), final(self).keeps()),
            final(self).rulebook() == old(self).rulebook(),
    ;
}

impl SubEffectAdapter for dyn MaskEffect {
    type Call = MaskCall;

    open spec fn rulebook(&self) -> EffectRules<MaskCall> {
        self.rules()
    }

    open spec fn keeps(&self) -> EffectState {
        self.state()
    }

    fn name_str(&self) -> (r: &'static str) {
        self.name()
    }

    fn configure_mut(&mut self, params: RawEffectParams) -> (r: Result<(), EffectError>) {
        self.configure(params)
    }

    fn prepare_mut(&mut self, context: &ProcessingContext) -> (r: Result<(), EffectError>) {
        self.prepare(context)
    }

    fn reset_state_mut(&mut self) {
        self.reset_state();
    }
}

impl SubEffectAdapter for dyn PlaneEffect {
    type Call = PlaneCall;

    open spec fn rulebook(&self) -> EffectRules<PlaneCall> {
        self.rules()
    }

    open spec fn keeps(&self) -> EffectState {
        self.state()
    }

    fn name_str(&self) -> (r: &'static str) {
        self.name()
    }

    fn configure_mut(&mut self, params: RawEffectParams) -> (r: Result<(), EffectError>) {
        self.configure(params)
    }

    fn prepare_mut(&mut self, context: &ProcessingContext) -> (r: Result<(), EffectError>) {
        self.prepare(context)
    }

    fn reset_state_mut(&mut self) {
        self.reset_state();
    }
}

impl SubEffectAdapter for dyn PostEffect {
    type Call = PostCall;

    open spec fn rulebook(&self) -> EffectRules<PostCall> {
        self.rules()
    }

    open spec fn keeps(&self) -> EffectState {
        self.state()
    }

    fn name_str(&self) -> (r: &'static str) {
        self.name()
    }

    fn configure_mut(&mut self, params: RawEffectParams) -> (r: Result<(), EffectError>) {
        self.configure(params)
    }

    fn prepare_mut(&mut self, context: &ProcessingContext) -> (r: Result<(), EffectError>) {
        self.prepare(context)
    }

    fn reset_state_mut(&mut self) {
        self.reset_state();
    }
}

impl<E: ?Sized> Slot<E> {
    /// Whether the effect runs.
    pub closed spec fn on(&self) -> bool {
        self.enabled
    }

    /// The effect.
    pub closed spec fn held(&self) -> Box<E> {
        self.effect
    }

    /// Pair an effect with its enable flag.
    #[must_use]
    pub fn new(effect: Box<E>, enabled: bool) -> (r: Self)
        ensures
            r.held() == effect,
            r.on() == enabled,
    {
        Slot { effect, enabled }
    }

    /// The effect.
    #[must_use]
    pub fn effect(&self) -> (r: &E)
        ensures
            r == &*self.held(),
    {
        &*self.effect
    }

    /// Whether the effect runs.
    #[must_use]
    pub fn is_enabled(&self) -> (r: bool)
        ensures
            r == self.on(),
    {
        self.enabled
    }
}

/// Name of slot `i`.
pub open spec fn ident_at<E: ?Sized + SubEffectAdapter>(chain: Seq<Slot<E>>, i: int) -> Seq<char> {
    chain[i].held().rulebook().id
}

/// Rules of slot `i`.
pub open spec fn rules_at<E: ?Sized + SubEffectAdapter>(chain: Seq<Slot<E>>, i: int) -> EffectRules<
    E::Call,
> {
    chain[i].held().rulebook()
}

/// What slot `i` holds.
pub open spec fn state_at<E: ?Sized + SubEffectAdapter>(
    chain: Seq<Slot<E>>,
    i: int,
) -> EffectState {
    chain[i].held().keeps()
}

/// Whether slot `i` runs.
pub open spec fn on_at<E: ?Sized>(chain: Seq<Slot<E>>, i: int) -> bool {
    chain[i].on()
}

/// Whether slot `i` is the same in both chains.
pub open spec fn same_at<E: ?Sized>(a: Seq<Slot<E>>, b: Seq<Slot<E>>, i: int) -> bool {
    a[i] == b[i]
}

/// Whether slot `i` has the same rules and the same flag in both chains.
pub open spec fn like_at<E: ?Sized + SubEffectAdapter>(
    a: Seq<Slot<E>>,
    b: Seq<Slot<E>>,
    i: int,
) -> bool {
    rules_at(a, i) == rules_at(b, i) && on_at(a, i) == on_at(b, i)
}

/// Whether both chains have effects of the same rules, and the same flags.
pub open spec fn alike<E: ?Sized + SubEffectAdapter>(a: Seq<Slot<E>>, b: Seq<Slot<E>>) -> bool {
    &&& a.len() == b.len()
    &&& forall|i: int| 0 <= i < a.len() ==> #[trigger] like_at(a, b, i)
}

/// Whether slot `i` may be prepared with the outcome `r` and come out as in
/// `after`.
pub open spec fn prepare_at<E: ?Sized + SubEffectAdapter>(
    chain: Seq<Slot<E>>,
    after: Seq<Slot<E>>,
    i: int,
    context: ProcessingContext,
    r: Result<(), EffectError>,
) -> bool {
    (rules_at(chain, i).prepare)(state_at(chain, i), context, state_at(after, i), r)
}

/// Whether the first `n` slots may all be prepared and come out as in `after`.
pub open spec fn prepared_below<E: ?Sized + SubEffectAdapter>(
    chain: Seq<Slot<E>>,
    after: Seq<Slot<E>>,
    n: int,
    context: ProcessingContext,
) -> bool {
    forall|k: int| 0 <= k < n ==> #[trigger] prepare_at(chain, after, k, context, Ok(()))
}

/// Whether the slots from `n` on are the same in both chains.
pub open spec fn same_from<E: ?Sized>(a: Seq<Slot<E>>, b: Seq<Slot<E>>, n: int) -> bool {
    forall|k: int| n <= k < a.len() ==> #[trigger] same_at(a, b, k)
}

/// Whether preparing a chain, disabled effects too, may lead to `after` with the
/// outcome `r`: each effect is prepared once, and the first failure ends it.
pub open spec fn chain_prepared<E: ?Sized + SubEffectAdapter>(
    chain: Seq<Slot<E>>,
    after: Seq<Slot<E>>,
    context: ProcessingContext,
    r: Result<(), EffectError>,
) -> bool {
    &&& alike(chain, after)
    &&& match r {
        Ok(()) => prepared_below(chain, after, chain.len() as int, context),
        Err(_) => exists|i: int|
            {
                &&& 0 <= i < chain.len()
                &&& #[trigger] prepare_at(chain, after, i, context, r)
                &&& prepared_below(chain, after, i, context)
                &&& same_from(after, chain, i + 1)
            },
    }
}

/// Prepare every effect of a chain, in order.
pub(crate) fn prepare_chain<E: ?Sized + SubEffectAdapter>(
    chain: &mut Vec<Slot<E>>,
    context: &ProcessingContext,
) -> (r: Result<(), EffectError>)
    ensures
        chain_prepared(old(chain)@, final(chain)@, *context, r),
{
    let mut i: usize = 0;
    let ghost start = chain@;
    while i < chain.len()
        invariant
            i <= chain@.len(),
            start == old(chain)@,
            alike(start, chain@),
            same_from(chain@, start, i as int),
            prepared_below(start, chain@, i as int, *context),
        decreases start.len() - i,
    {
        let ghost before = chain@;
        assert(same_at(before, start, i as int));
        let r = chain[i].effect.prepare_mut(context);
        assert(prepare_at(start, chain@, i as int, *context, r));
        assert(r is Ok ==> r->Ok_0 == ());
        proof {
            lemma_alike(start, before, chain@, i as int);
            assert forall|k: int| i < k < start.len() implies #[trigger] same_at(
                chain@,
                start,
                k,
            ) by {
                assert(same_at(before, start, k));
            }
            assert forall|k: int| 0 <= k < i implies #[trigger] prepare_at(
                start,
                chain@,
                k,
                *context,
                Ok(()),
            ) by {
                assert(prepare_at(start, before, k, *context, Ok(())));
            }
        }
        if r.is_err() {
            return r;
        }
        assert(r == Ok::<(), EffectError>(()));
        i = i + 1;
    }
    Ok(())
}

/// A chain that differs from one in a slot of the same name and flag is alike.
proof fn lemma_alike<E: ?Sized + SubEffectAdapter>(
    start: Seq<Slot<E>>,
    before: Seq<Slot<E>>,
    after: Seq<Slot<E>>,
    i: int,
)
    requires
        alike(start, before),
        after.len() == before.len(),
        0 <= i < after.len(),
        rules_at(after, i) == rules_at(before, i),
        on_at(after, i) == on_at(before, i),
        forall|k: int| 0 <= k < after.len() && k != i ==> #[trigger] same_at(after, before, k),
    ensures
        alike(start, after),
{
    assert forall|k: int| 0 <= k < start.len() implies #[trigger] like_at(start, after, k) by {
        assert(like_at(start, before, k));
        if k != i {
            assert(same_at(after, before, k));
        }
    }
}

/// Whether replacing a chain may lead to `after` with the outcome `r`.
pub open spec fn replaced<E: ?Sized + SubEffectAdapter>(
    before: Seq<Slot<E>>,
    given: Seq<Slot<E>>,
    context: Option<ProcessingContext>,
    after: Seq<Slot<E>>,
    r: Result<(), EffectError>,
) -> bool {
    match context {
        None => after == before && (r matches Err(e) && (e matches EffectError::PrepareFailed {
            name,
            reason,
        } && name@ == COMPOSITE@ && reason@
            == "replace_subchain called before composite was prepared"@)),
        Some(c) => if r is Ok {
            chain_prepared(given, after, c, r)
        } else {
            after == before && exists|left: Seq<Slot<E>>| #[trigger]
                chain_prepared(given, left, c, r)
        },
    }
}

/// Prepare `given` and put it in place of `target`; on failure `target` stays.
pub(crate) fn replace_chain<E: ?Sized + SubEffectAdapter>(
    target: &mut Vec<Slot<E>>,
    given: Vec<Slot<E>>,
    context: &Option<ProcessingContext>,
) -> (r: Result<(), EffectError>)
    ensures
        replaced(old(target)@, given@, *context, final(target)@, r),
{
    match context {
        None => Err(
            EffectError::prepare_failed(
                COMPOSITE,
                "replace_subchain called before composite was prepared".to_owned(),
            ),
        ),
        Some(c) => {
            let mut chain = given;
            let r = prepare_chain(&mut chain, c);
            assert(chain_prepared(given@, chain@, *c, r));
            if r.is_ok() {
                *target = chain;
            }
            r
        },
    }
}

/// Whether some slot of the chain has the name.
pub open spec fn has_name<E: ?Sized + SubEffectAdapter>(
    chain: Seq<Slot<E>>,
    name: Seq<char>,
) -> bool {
    exists|i: int| 0 <= i < chain.len() && #[trigger] ident_at(chain, i) == name
}

/// Whether `r` reports that the sub-chain has no effect of the name.
pub open spec fn no_such<T>(
    r: Result<T, EffectError>,
    name: Seq<char>,
    section: SubchainKind,
) -> bool {
    r matches Err(e) && (e matches EffectError::InvalidConfig { name: n, reason, hint } && n@
        == COMPOSITE@ && reason@ == "no effect named '"@ + name + "' in the '"@ + section.wire()
        + "' sub-chain"@ && hint is None)
}

fn no_such_effect(name: &str, section: SubchainKind) -> (r: EffectError)
    ensures
        no_such(Err::<(), EffectError>(r), name@, section),
{
    let mut reason = "no effect named '".to_owned();
    reason.append(name);
    reason.append("' in the '");
    reason.append(section.as_str());
    reason.append("' sub-chain");
    EffectError::invalid_config(COMPOSITE, reason, None)
}

/// Whether slot `i` has the name, and a flag other than `enabled`.
pub open spec fn flips<E: ?Sized + SubEffectAdapter>(
    chain: Seq<Slot<E>>,
    i: int,
    name: Seq<char>,
    enabled: bool,
) -> bool {
    ident_at(chain, i) == name && on_at(chain, i) != enabled
}

/// Whether slot `i` may come out as in `after` when the slots of a name are set
/// to `enabled`: one that flips keeps its rules, and its effect unless it is
/// enabled, which resets the effect; every other one stays.
pub open spec fn slot_set<E: ?Sized + SubEffectAdapter>(
    before: Seq<Slot<E>>,
    after: Seq<Slot<E>>,
    i: int,
    name: Seq<char>,
    enabled: bool,
) -> bool {
    if flips(before, i, name, enabled) {
        &&& rules_at(after, i) == rules_at(before, i)
        &&& on_at(after, i) == enabled
        &&& if enabled {
            (rules_at(before, i).reset)(state_at(before, i), state_at(after, i))
        } else {
            after[i].held() == before[i].held()
        }
    } else {
        same_at(after, before, i)
    }
}

/// Whether setting the flag of a name may lead to `after` with the outcome `r`.
pub open spec fn flag_set<E: ?Sized + SubEffectAdapter>(
    before: Seq<Slot<E>>,
    after: Seq<Slot<E>>,
    name: Seq<char>,
    enabled: bool,
    section: SubchainKind,
    r: Result<bool, EffectError>,
) -> bool {
    &&& after.len() == before.len()
    &&& forall|i: int|
        0 <= i < before.len() ==> #[trigger] slot_set(before, after, i, name, enabled)
    &&& if has_name(before, name) {
        r matches Ok(changed) && (changed <==> exists|i: int|
            0 <= i < before.len() && #[trigger] flips(before, i, name, enabled))
    } else {
        no_such(r, name, section)
    }
}

/// Set the flag of every slot of a name.
pub(crate) fn set_enabled_in<E: ?Sized + SubEffectAdapter>(
    chain: &mut Vec<Slot<E>>,
    name: &str,
    enabled: bool,
    section: SubchainKind,
) -> (r: Result<bool, EffectError>)
    ensures
        flag_set(old(chain)@, final(chain)@, name@, enabled, section, r),
{
    let mut found: bool = false;
    let mut changed: bool = false;
    let mut i: usize = 0;
    let ghost start = chain@;
    while i < chain.len()
        invariant
            i <= chain@.len(),
            start == old(chain)@,
            chain@.len() == start.len(),
            forall|k: int| i <= k < start.len() ==> same_at(chain@, start, k),
            forall|k: int| 0 <= k < i ==> #[trigger] slot_set(start, chain@, k, name@, enabled),
            found <==> exists|k: int| 0 <= k < i && #[trigger] ident_at(start, k) == name@,
            changed <==> exists|k: int| 0 <= k < i && #[trigger] flips(start, k, name@, enabled),
        decreases start.len() - i,
    {
        let ghost before = chain@;
        assert(same_at(before, start, i as int));
        let matches: bool = text::same(chain[i].effect.name_str(), name);
        assert(matches == (ident_at(start, i as int) == name@));
        if matches {
            found = true;
            if chain[i].enabled != enabled {
                assert(flips(start, i as int, name@, enabled));
                if enabled {
                    chain[i].effect.reset_state_mut();
                }
                chain[i].enabled = enabled;
                changed = true;
            }
        }
        proof {
            assert(slot_set(start, chain@, i as int, name@, enabled));
            assert forall|k: int| 0 <= k < i implies #[trigger] slot_set(
                start,
                chain@,
                k,
                name@,
                enabled,
            ) by {
                assert(slot_set(start, before, k, name@, enabled));
                assert(same_at(chain@, before, k));
            }
            assert forall|k: int| i < k < start.len() implies same_at(chain@, start, k) by {
                assert(same_at(before, start, k));
            }
        }
        i = i + 1;
    }
    if found {
        Ok(changed)
    } else {
        Err(no_such_effect(name, section))
    }
}

/// Names of the disabled effects among the first `n`, in order.
pub open spec fn disabled_below<E: ?Sized + SubEffectAdapter>(
    chain: Seq<Slot<E>>,
    n: int,
) -> Seq<Seq<char>>
    decreases n,
{
    if n <= 0 {
        Seq::empty()
    } else if on_at(chain, n - 1) {
        disabled_below(chain, n - 1)
    } else {
        disabled_below(chain, n - 1).push(ident_at(chain, n - 1))
    }
}

/// Names of the disabled effects, in order.
pub(crate) fn disabled<E: ?Sized + SubEffectAdapter>(chain: &Vec<Slot<E>>) -> (r: Vec<&'static str>)
    ensures
        r@.map_values(|s: &'static str| s@) == disabled_below(chain@, chain@.len() as int),
{
    let mut out: Vec<&'static str> = Vec::new();
    let mut i: usize = 0;
    assert(out@.map_values(|s: &'static str| s@) =~= Seq::empty());
    while i < chain.len()
        invariant
            i <= chain@.len(),
            out@.map_values(|s: &'static str| s@) == disabled_below(chain@, i as int),
        decreases chain@.len() - i,
    {
        let ghost before = out@.map_values(|s: &'static str| s@);
        if !chain[i].enabled {
            let name: &'static str = chain[i].effect.name_str();
            out.push(name);
            assert(out@.map_values(|s: &'static str| s@) =~= before.push(
                ident_at(chain@, i as int),
            ));
        }
        i = i + 1;
    }
    out
}

/// Whether slot `i` may be configured with the outcome `r` and come out as in
/// `after`.
pub open spec fn configure_at<E: ?Sized + SubEffectAdapter>(
    chain: Seq<Slot<E>>,
    after: Seq<Slot<E>>,
    i: int,
    params: RawEffectParams,
    r: Result<(), EffectError>,
) -> bool {
    (rules_at(chain, i).configure)(state_at(chain, i), params, state_at(after, i), r)
}

/// Whether slot `i` is the first of the name.
pub open spec fn first_named<E: ?Sized + SubEffectAdapter>(
    chain: Seq<Slot<E>>,
    i: int,
    name: Seq<char>,
) -> bool {
    &&& ident_at(chain, i) == name
    &&& forall|k: int| 0 <= k < i ==> #[trigger] ident_at(chain, k) != name
}

/// Whether configuring the first effect of a name may lead to `after` with the
/// outcome `r`: that effect takes the parameters, and every other stays.
pub open spec fn reconfigured<E: ?Sized + SubEffectAdapter>(
    before: Seq<Slot<E>>,
    after: Seq<Slot<E>>,
    name: Seq<char>,
    params: RawEffectParams,
    section: SubchainKind,
    r: Result<(), EffectError>,
) -> bool {
    &&& alike(before, after)
    &&& forall|k: int|
        0 <= k < before.len() && !first_named(before, k, name) ==> #[trigger] same_at(
            after,
            before,
            k,
        )
    &&& if has_name(before, name) {
        exists|i: int|
            0 <= i < before.len() && #[trigger] first_named(before, i, name) && configure_at(
                before,
                after,
                i,
                params,
                r,
            )
    } else {
        no_such(r, name, section)
    }
}

/// Configure the first effect of a name.
pub(crate) fn reconfigure_in<E: ?Sized + SubEffectAdapter>(
    chain: &mut Vec<Slot<E>>,
    name: &str,
    params: RawEffectParams,
    section: SubchainKind,
) -> (r: Result<(), EffectError>)
    ensures
        reconfigured(old(chain)@, final(chain)@, name@, params, section, r),
{
    let mut i: usize = 0;
    while i < chain.len()
        invariant
            i <= chain@.len(),
            chain@ == old(chain)@,
            forall|k: int| 0 <= k < i ==> #[trigger] ident_at(chain@, k) != name@,
        decreases chain@.len() - i,
    {
        let ghost before = chain@;
        if text::same(chain[i].effect.name_str(), name) {
            assert(first_named(before, i as int, name@));
            let r = chain[i].effect.configure_mut(params);
            proof {
                assert(configure_at(before, chain@, i as int, params, r));
                assert forall|k: int|
                    0 <= k < before.len() && k != i implies #[trigger] same_at(chain@, before, k) by {}
                lemma_alike(before, before, chain@, i as int);
            }
            return r;
        }
        i = i + 1;
    }
    Err(no_such_effect(name, section))
}

/// Whether a context is `before` with one more timing of a stage.
pub open spec fn staged(
    before: FrameContext,
    after: FrameContext,
    scope: Seq<char>,
    stage: Seq<char>,
) -> bool {
    &&& after.frame_sequence == before.frame_sequence
    &&& after.frame_timestamp == before.frame_timestamp
    &&& after.fallback_active == before.fallback_active
    &&& exists|us: u64| #[trigger]
        after.telemetry.stage_follows(before.telemetry, scope, stage, us)
}

/// Record the time since `started` as a timing of a stage.
pub(crate) fn record_stage(
    context: &mut FrameContext,
    scope: &'static str,
    stage: &'static str,
    started: Instant,
)
    ensures
        staged(*old(context), *final(context), scope@, stage@),
{
    let spent = segmentation::elapsed(started);
    context.telemetry.record_stage(StageKey::new(scope, stage), spent);
    assert(context.telemetry.stage_follows(
        old(context).telemetry,
        scope@,
        stage@,
        metrics::saturated(frame::duration_micros(spent)),
    ));
}

/// Whether slot `i` may be run on `call` with the outcome `r` and come out as in
/// `after`.
pub open spec fn runs_at<E: ?Sized + SubEffectAdapter>(
    chain: Seq<Slot<E>>,
    after: Seq<Slot<E>>,
    i: int,
    call: E::Call,
    r: Result<(), EffectError>,
) -> bool {
    (rules_at(chain, i).process)(state_at(chain, i), call, state_at(after, i), r)
}

/// After an effect took new parameters, the next frame runs under them: from a
/// state that the parameters may lead to, under the same rules.
pub proof fn law_new_settings_take_effect<E: ?Sized + SubEffectAdapter>(
    before: Seq<Slot<E>>,
    after: Seq<Slot<E>>,
    again: Seq<Slot<E>>,
    name: Seq<char>,
    params: RawEffectParams,
    section: SubchainKind,
    r: Result<(), EffectError>,
    i: int,
    call: E::Call,
    q: Result<(), EffectError>,
)
    requires
        reconfigured(before, after, name, params, section, r),
        0 <= i < before.len(),
        first_named(before, i, name),
        runs_at(after, again, i, call, q),
    ensures
        (rules_at(before, i).configure)(state_at(before, i), params, state_at(after, i), r),
        (rules_at(before, i).process)(state_at(after, i), call, state_at(again, i), q),
{
    assert(ident_at(before, i) == name);
    assert(has_name(before, name));
    let k = choose|k: int|
        0 <= k < before.len() && #[trigger] first_named(before, k, name) && configure_at(
            before,
            after,
            k,
            params,
            r,
        );
    assert(ident_at(before, k) == name);
    assert(k == i);
    assert(like_at(before, after, i));
}

/// Whether slot `i` may take a mask from `data` to `data_after` with the
/// outcome `r`: an enabled effect runs once and is timed, a disabled one leaves it
/// alone.
pub open spec fn mask_step(
    chain: Seq<Slot<dyn MaskEffect>>,
    after: Seq<Slot<dyn MaskEffect>>,
    i: int,
    width: u32,
    height: u32,
    data: Seq<u32>,
    context: FrameContext,
    data_after: Seq<u32>,
    context_after: FrameContext,
    r: Result<(), EffectError>,
) -> bool {
    if chain[i].on() {
        exists|c: FrameContext| #[trigger]
            staged(c, context_after, "mask"@, ident_at(chain, i)) && runs_at(
                chain,
                after,
                i,
                MaskCall {
                    width,
                    height,
                    mask: data,
                    context,
                    mask_after: data_after,
                    context_after: c,
                },
                r,
            )
    } else {
        &&& same_at(after, chain, i)
        &&& data_after == data
        &&& context_after == context
        &&& r == Ok::<(), EffectError>(())
    }
}

/// Whether the first `n` slots may all succeed and lead to `data_after`.
pub open spec fn mask_below(
    chain: Seq<Slot<dyn MaskEffect>>,
    after: Seq<Slot<dyn MaskEffect>>,
    n: int,
    width: u32,
    height: u32,
    data: Seq<u32>,
    context: FrameContext,
    data_after: Seq<u32>,
    context_after: FrameContext,
) -> bool
    decreases n,
{
    if n <= 0 {
        data_after == data && context_after == context
    } else {
        exists|d: Seq<u32>, c: FrameContext|
            mask_below(chain, after, n - 1, width, height, data, context, d, c)
                && #[trigger] mask_step(
                chain,
                after,
                n - 1,
                width,
                height,
                d,
                c,
                data_after,
                context_after,
                Ok(()),
            )
    }
}

/// Whether slot `n` may be the first to fail, with the outcome `r`.
pub open spec fn mask_fails(
    chain: Seq<Slot<dyn MaskEffect>>,
    after: Seq<Slot<dyn MaskEffect>>,
    n: int,
    width: u32,
    height: u32,
    data: Seq<u32>,
    context: FrameContext,
    data_after: Seq<u32>,
    context_after: FrameContext,
    r: Result<(), EffectError>,
) -> bool {
    exists|d: Seq<u32>, c: FrameContext|
        mask_below(chain, after, n, width, height, data, context, d, c) && #[trigger] mask_step(
            chain,
            after,
            n,
            width,
            height,
            d,
            c,
            data_after,
            context_after,
            r,
        )
}

/// Whether the enabled effects of a chain, run in order up to the first failure,
/// may lead to `data_after` with the outcome `r`.
pub open spec fn mask_run(
    chain: Seq<Slot<dyn MaskEffect>>,
    after: Seq<Slot<dyn MaskEffect>>,
    width: u32,
    height: u32,
    data: Seq<u32>,
    context: FrameContext,
    data_after: Seq<u32>,
    context_after: FrameContext,
    r: Result<(), EffectError>,
) -> bool {
    &&& alike(chain, after)
    &&& match r {
        Ok(()) => mask_below(
            chain,
            after,
            chain.len() as int,
            width,
            height,
            data,
            context,
            data_after,
            context_after,
        ),
        Err(_) => exists|i: int|
            0 <= i < chain.len() && #[trigger] mask_fails(
                chain,
                after,
                i,
                width,
                height,
                data,
                context,
                data_after,
                context_after,
                r,
            ) && same_from(after, chain, i + 1),
    }
}

/// What the first `n` slots do does not depend on the later ones.
proof fn lemma_mask_below(
    chain: Seq<Slot<dyn MaskEffect>>,
    a: Seq<Slot<dyn MaskEffect>>,
    b: Seq<Slot<dyn MaskEffect>>,
    n: int,
    width: u32,
    height: u32,
    data: Seq<u32>,
    context: FrameContext,
    data_after: Seq<u32>,
    context_after: FrameContext,
)
    requires
        mask_below(chain, a, n, width, height, data, context, data_after, context_after),
        forall|i: int| 0 <= i < n ==> #[trigger] same_at(b, a, i),
    ensures
        mask_below(chain, b, n, width, height, data, context, data_after, context_after),
    decreases n,
{
    if n > 0 {
        let (d, c) = choose|d: Seq<u32>, c: FrameContext|
            mask_below(chain, a, n - 1, width, height, data, context, d, c)
                && #[trigger] mask_step(
                chain,
                a,
                n - 1,
                width,
                height,
                d,
                c,
                data_after,
                context_after,
                Ok(()),
            );
        lemma_mask_below(chain, a, b, n - 1, width, height, data, context, d, c);
        assert(same_at(b, a, n - 1));
        assert(mask_step(
            chain,
            b,
            n - 1,
            width,
            height,
            d,
            c,
            data_after,
            context_after,
            Ok(()),
        ));
    }
}

/// Run the enabled effects of a chain in order; the first failure ends it.
pub(crate) fn run_mask_chain(
    chain: &mut Vec<Slot<dyn MaskEffect>>,
    plane: &mut MaskPlane<'_>,
    context: &mut FrameContext,
) -> (r: Result<(), EffectError>)
    requires
        old(plane).wf(),
    ensures
        final(plane).wf(),
        final(plane).width == old(plane).width,
        final(plane).height == old(plane).height,
        final(final(plane).data)@ == final(old(plane).data)@,
        mask_run(
            old(chain)@,
            final(chain)@,
            old(plane).width,
            old(plane).height,
            old(plane).data@,
            *old(context),
            final(plane).data@,
            *final(context),
            r,
        ),
{
    let mut i: usize = 0;
    let ghost start = chain@;
    let ghost w = plane.width;
    let ghost h = plane.height;
    let ghost data = plane.data@;
    while i < chain.len()
        invariant
            i <= chain@.len(),
            start == old(chain)@,
            alike(start, chain@),
            same_from(chain@, start, i as int),
            plane.wf(),
            plane.width == w && plane.height == h,
            w == old(plane).width && h == old(plane).height,
            data == old(plane).data@,
            final(plane.data)@ == final(old(plane).data)@,
            mask_below(
                start,
                chain@,
                i as int,
                w,
                h,
                data,
                *old(context),
                plane.data@,
                *context,
            ),
        decreases start.len() - i,
    {
        let ghost before = chain@;
        let ghost d = plane.data@;
        let ghost c = *context;
        assert(same_at(before, start, i as int));
        let r = if chain[i].enabled {
            let started = segmentation::now();
            let r = chain[i].effect.process(plane, context);
            let name: &'static str = chain[i].effect.name();
            let ghost ran = *context;
            let ghost call = MaskCall {
                width: w,
                height: h,
                mask: d,
                context: c,
                mask_after: plane.data@,
                context_after: ran,
            };
            assert(runs_at(start, chain@, i as int, call, r));
            record_stage(context, "mask", name, started);
            assert(staged(ran, *context, "mask"@, ident_at(start, i as int)));
            r
        } else {
            Ok(())
        };
        assert(r is Ok ==> r->Ok_0 == ());
        assert(mask_step(start, chain@, i as int, w, h, d, c, plane.data@, *context, r));
        proof {
            assert forall|k: int| 0 <= k < before.len() && k != i implies #[trigger] same_at(
                chain@,
                before,
                k,
            ) by {}
            lemma_alike(start, before, chain@, i as int);
            lemma_mask_below(
                start,
                before,
                chain@,
                i as int,
                w,
                h,
                data,
                *old(context),
                d,
                c,
            );
            assert forall|k: int| i < k < start.len() implies #[trigger] same_at(
                chain@,
                start,
                k,
            ) by {
                assert(same_at(before, start, k));
            }
        }
        if r.is_err() {
            assert(mask_fails(
                start,
                chain@,
                i as int,
                w,
                h,
                data,
                *old(context),
                plane.data@,
                *context,
                r,
            ));
            return r;
        }
        assert(r == Ok::<(), EffectError>(()));
        assert(mask_step(
            start,
            chain@,
            (i + 1) - 1,
            w,
            h,
            d,
            c,
            plane.data@,
            *context,
            Ok(()),
        ));
        assert(mask_below(
            start,
            chain@,
            (i + 1) - 1,
            w,
            h,
            data,
            *old(context),
            d,
            c,
        ));
        i = i + 1;
    }
    Ok(())
}

/// Whether slot `i` may take a plane from `data` to `data_after` with the
/// outcome `r`: an enabled effect runs once and is timed, a disabled one leaves it
/// alone.
pub open spec fn plane_step(
    chain: Seq<Slot<dyn PlaneEffect>>,
    after: Seq<Slot<dyn PlaneEffect>>,
    section: Seq<char>,
    i: int,
    width: u32,
    height: u32,
    data: Seq<u8>,
    context: FrameContext,
    data_after: Seq<u8>,
    context_after: FrameContext,
    r: Result<(), EffectError>,
) -> bool {
    if chain[i].on() {
        exists|c: FrameContext| #[trigger]
            staged(c, context_after, section, ident_at(chain, i)) && runs_at(
                chain,
                after,
                i,
                PlaneCall {
                    width,
                    height,
                    plane: data,
                    context,
                    plane_after: data_after,
                    context_after: c,
                },
                r,
            )
    } else {
        &&& same_at(after, chain, i)
        &&& data_after == data
        &&& context_after == context
        &&& r == Ok::<(), EffectError>(())
    }
}

/// Whether the first `n` slots may all succeed and lead to `data_after`.
pub open spec fn plane_below(
    chain: Seq<Slot<dyn PlaneEffect>>,
    after: Seq<Slot<dyn PlaneEffect>>,
    section: Seq<char>,
    n: int,
    width: u32,
    height: u32,
    data: Seq<u8>,
    context: FrameContext,
    data_after: Seq<u8>,
    context_after: FrameContext,
) -> bool
    decreases n,
{
    if n <= 0 {
        data_after == data && context_after == context
    } else {
        exists|d: Seq<u8>, c: FrameContext|
            plane_below(chain, after, section, n - 1, width, height, data, context, d, c)
                && #[trigger] plane_step(
                chain,
                after,
                section,
                n - 1,
                width,
                height,
                d,
                c,
                data_after,
                context_after,
                Ok(()),
            )
    }
}

/// Whether slot `n` may be the first to fail, with the outcome `r`.
pub open spec fn plane_fails(
    chain: Seq<Slot<dyn PlaneEffect>>,
    after: Seq<Slot<dyn PlaneEffect>>,
    section: Seq<char>,
    n: int,
    width: u32,
    height: u32,
    data: Seq<u8>,
    context: FrameContext,
    data_after: Seq<u8>,
    context_after: FrameContext,
    r: Result<(), EffectError>,
) -> bool {
    exists|d: Seq<u8>, c: FrameContext|
        plane_below(chain, after, section, n, width, height, data, context, d, c)
            && #[trigger] plane_step(
            chain,
            after,
            section,
            n,
            width,
            height,
            d,
            c,
            data_after,
            context_after,
            r,
        )
}

/// Whether the enabled effects of a chain, run in order up to the first failure,
/// may lead to `data_after` with the outcome `r`.
pub open spec fn plane_run(
    chain: Seq<Slot<dyn PlaneEffect>>,
    after: Seq<Slot<dyn PlaneEffect>>,
    section: Seq<char>,
    width: u32,
    height: u32,
    data: Seq<u8>,
    context: FrameContext,
    data_after: Seq<u8>,
    context_after: FrameContext,
    r: Result<(), EffectError>,
) -> bool {
    &&& alike(chain, after)
    &&& match r {
        Ok(()) => plane_below(
            chain,
            after,
            section,
            chain.len() as int,
            width,
            height,
            data,
            context,
            data_after,
            context_after,
        ),
        Err(_) => exists|i: int|
            0 <= i < chain.len() && #[trigger] plane_fails(
                chain,
                after,
                section,
                i,
                width,
                height,
                data,
                context,
                data_after,
                context_after,
                r,
            ) && same_from(after, chain, i + 1),
    }
}

/// What the first `n` slots do does not depend on the later ones.
proof fn lemma_plane_below(
    chain: Seq<Slot<dyn PlaneEffect>>,
    a: Seq<Slot<dyn PlaneEffect>>,
    b: Seq<Slot<dyn PlaneEffect>>,
    section: Seq<char>,
    n: int,
    width: u32,
    height: u32,
    data: Seq<u8>,
    context: FrameContext,
    data_after: Seq<u8>,
    context_after: FrameContext,
)
    requires
        plane_below(chain, a, section, n, width, height, data, context, data_after, context_after),
        forall|i: int| 0 <= i < n ==> #[trigger] same_at(b, a, i),
    ensures
        plane_below(chain, b, section, n, width, height, data, context, data_after, context_after),
    decreases n,
{
    if n > 0 {
        let (d, c) = choose|d: Seq<u8>, c: FrameContext|
            plane_below(chain, a, section, n - 1, width, height, data, context, d, c)
                && #[trigger] plane_step(
                chain,
                a,
                section,
                n - 1,
                width,
                height,
                d,
                c,
                data_after,
                context_after,
                Ok(()),
            );
        lemma_plane_below(chain, a, b, section, n - 1, width, height, data, context, d, c);
        assert(same_at(b, a, n - 1));
        assert(plane_step(
            chain,
            b,
            section,
            n - 1,
            width,
            height,
            d,
            c,
            data_after,
            context_after,
            Ok(()),
        ));
    }
}

/// Run the enabled effects of a chain in order; the first failure ends it.
pub(crate) fn run_plane_chain(
    chain: &mut Vec<Slot<dyn PlaneEffect>>,
    section: &'static str,
    plane: &mut FramePlane<'_>,
    context: &mut FrameContext,
) -> (r: Result<(), EffectError>)
    requires
        old(plane).wf(),
    ensures
        final(plane).wf(),
        final(plane).width == old(plane).width,
        final(plane).height == old(plane).height,
        final(final(plane).data)@ == final(old(plane).data)@,
        plane_run(
            old(chain)@,
            final(chain)@,
            section@,
            old(plane).width,
            old(plane).height,
            old(plane).data@,
            *old(context),
            final(plane).data@,
            *final(context),
            r,
        ),
{
    let mut i: usize = 0;
    let ghost start = chain@;
    let ghost w = plane.width;
    let ghost h = plane.height;
    let ghost data = plane.data@;
    while i < chain.len()
        invariant
            i <= chain@.len(),
            start == old(chain)@,
            alike(start, chain@),
            same_from(chain@, start, i as int),
            plane.wf(),
            plane.width == w && plane.height == h,
            w == old(plane).width && h == old(plane).height,
            data == old(plane).data@,
            final(plane.data)@ == final(old(plane).data)@,
            plane_below(
                start,
                chain@,
                section@,
                i as int,
                w,
                h,
                data,
                *old(context),
                plane.data@,
                *context,
            ),
        decreases start.len() - i,
    {
        let ghost before = chain@;
        let ghost d = plane.data@;
        let ghost c = *context;
        assert(same_at(before, start, i as int));
        let r = if chain[i].enabled {
            let started = segmentation::now();
            let r = chain[i].effect.process(plane, context);
            let name: &'static str = chain[i].effect.name();
            let ghost ran = *context;
            let ghost call = PlaneCall {
                width: w,
                height: h,
                plane: d,
                context: c,
                plane_after: plane.data@,
                context_after: ran,
            };
            assert(runs_at(start, chain@, i as int, call, r));
            record_stage(context, section, name, started);
            assert(staged(ran, *context, section@, ident_at(start, i as int)));
            r
        } else {
            Ok(())
        };
        assert(r is Ok ==> r->Ok_0 == ());
        assert(plane_step(start, chain@, section@, i as int, w, h, d, c, plane.data@, *context, r));
        proof {
            assert forall|k: int| 0 <= k < before.len() && k != i implies #[trigger] same_at(
                chain@,
                before,
                k,
            ) by {}
            lemma_alike(start, before, chain@, i as int);
            lemma_plane_below(
                start,
                before,
                chain@,
                section@,
                i as int,
                w,
                h,
                data,
                *old(context),
                d,
                c,
            );
            assert forall|k: int| i < k < start.len() implies #[trigger] same_at(
                chain@,
                start,
                k,
            ) by {
                assert(same_at(before, start, k));
            }
        }
        if r.is_err() {
            assert(plane_fails(
                start,
                chain@,
                section@,
                i as int,
                w,
                h,
                data,
                *old(context),
                plane.data@,
                *context,
                r,
            ));
            return r;
        }
        assert(r == Ok::<(), EffectError>(()));
        assert(plane_step(
            start,
            chain@,
            section@,
            (i + 1) - 1,
            w,
            h,
            d,
            c,
            plane.data@,
            *context,
            Ok(()),
        ));
        assert(plane_below(
            start,
            chain@,
            section@,
            (i + 1) - 1,
            w,
            h,
            data,
            *old(context),
            d,
            c,
        ));
        i = i + 1;
    }
    Ok(())
}

/// Whether slot `i` may take a composed frame from `data` to `data_after` with the
/// outcome `r`: an enabled effect runs once and is timed, a disabled one leaves it
/// alone.
pub open spec fn post_step(
    chain: Seq<Slot<dyn PostEffect>>,
    after: Seq<Slot<dyn PostEffect>>,
    i: int,
    width: u32,
    height: u32,
    data: Seq<u8>,
    mask: Seq<u32>,
    context: FrameContext,
    data_after: Seq<u8>,
    context_after: FrameContext,
    r: Result<(), EffectError>,
) -> bool {
    if chain[i].on() {
        exists|c: FrameContext| #[trigger]
            staged(c, context_after, "post"@, ident_at(chain, i)) && runs_at(
                chain,
                after,
                i,
                PostCall {
                    width,
                    height,
                    plane: data,
                    mask,
                    context,
                    plane_after: data_after,
                    context_after: c,
                },
                r,
            )
    } else {
        &&& same_at(after, chain, i)
        &&& data_after == data
        &&& context_after == context
        &&& r == Ok::<(), EffectError>(())
    }
}

/// Whether the first `n` slots may all succeed and lead to `data_after`.
pub open spec fn post_below(
    chain: Seq<Slot<dyn PostEffect>>,
    after: Seq<Slot<dyn PostEffect>>,
    n: int,
    width: u32,
    height: u32,
    data: Seq<u8>,
    mask: Seq<u32>,
    context: FrameContext,
    data_after: Seq<u8>,
    context_after: FrameContext,
) -> bool
    decreases n,
{
    if n <= 0 {
        data_after == data && context_after == context
    } else {
        exists|d: Seq<u8>, c: FrameContext|
            post_below(chain, after, n - 1, width, height, data, mask, context, d, c)
                && #[trigger] post_step(
                chain,
                after,
                n - 1,
                width,
                height,
                d,
                mask, c,
                data_after,
                context_after,
                Ok(()),
            )
    }
}

/// Whether slot `n` may be the first to fail, with the outcome `r`.
pub open spec fn post_fails(
    chain: Seq<Slot<dyn PostEffect>>,
    after: Seq<Slot<dyn PostEffect>>,
    n: int,
    width: u32,
    height: u32,
    data: Seq<u8>,
    mask: Seq<u32>,
    context: FrameContext,
    data_after: Seq<u8>,
    context_after: FrameContext,
    r: Result<(), EffectError>,
) -> bool {
    exists|d: Seq<u8>, c: FrameContext|
        post_below(chain, after, n, width, height, data, mask, context, d, c)
            && #[trigger] post_step(
            chain,
            after,
            n,
            width,
            height,
            d,
            mask, c,
            data_after,
            context_after,
            r,
        )
}

/// Whether the enabled effects of a chain, run in order up to the first failure,
/// may lead to `data_after` with the outcome `r`.
pub open spec fn post_run(
    chain: Seq<Slot<dyn PostEffect>>,
    after: Seq<Slot<dyn PostEffect>>,
    width: u32,
    height: u32,
    data: Seq<u8>,
    mask: Seq<u32>,
    context: FrameContext,
    data_after: Seq<u8>,
    context_after: FrameContext,
    r: Result<(), EffectError>,
) -> bool {
    &&& alike(chain, after)
    &&& match r {
        Ok(()) => post_below(
            chain,
            after,
            chain.len() as int,
            width,
            height,
            data,
            mask, context,
            data_after,
            context_after,
        ),
        Err(_) => exists|i: int|
            0 <= i < chain.len() && #[trigger] post_fails(
                chain,
                after,
                i,
                width,
                height,
                data,
                mask, context,
                data_after,
                context_after,
                r,
            ) && same_from(after, chain, i + 1),
    }
}

/// What the first `n` slots do does not depend on the later ones.
proof fn lemma_post_below(
    chain: Seq<Slot<dyn PostEffect>>,
    a: Seq<Slot<dyn PostEffect>>,
    b: Seq<Slot<dyn PostEffect>>,
    n: int,
    width: u32,
    height: u32,
    data: Seq<u8>,
    mask: Seq<u32>,
    context: FrameContext,
    data_after: Seq<u8>,
    context_after: FrameContext,
)
    requires
        post_below(chain, a, n, width, height, data, mask, context, data_after, context_after),
        forall|i: int| 0 <= i < n ==> #[trigger] same_at(b, a, i),
    ensures
        post_below(chain, b, n, width, height, data, mask, context, data_after, context_after),
    decreases n,
{
    if n > 0 {
        let (d, c) = choose|d: Seq<u8>, c: FrameContext|
            post_below(chain, a, n - 1, width, height, data, mask, context, d, c)
                && #[trigger] post_step(
                chain,
                a,
                n - 1,
                width,
                height,
                d,
                mask, c,
                data_after,
                context_after,
                Ok(()),
            );
        lemma_post_below(chain, a, b, n - 1, width, height, data, mask, context, d, c);
        assert(same_at(b, a, n - 1));
        assert(post_step(
            chain,
            b,
            n - 1,
            width,
            height,
            d,
            mask, c,
            data_after,
            context_after,
            Ok(()),
        ));
    }
}

/// Run the enabled effects of a chain in order; the first failure ends it.
pub(crate) fn run_post_chain(
    chain: &mut Vec<Slot<dyn PostEffect>>,
    plane: &mut FramePlane<'_>,
    mask: &MaskPlane<'_>,
    context: &mut FrameContext,
) -> (r: Result<(), EffectError>)
    requires
        old(plane).wf(),
        mask.wf(),
        mask.width == old(plane).width,
        mask.height == old(plane).height,
    ensures
        final(plane).wf(),
        final(plane).width == old(plane).width,
        final(plane).height == old(plane).height,
        final(final(plane).data)@ == final(old(plane).data)@,
        post_run(
            old(chain)@,
            final(chain)@,
            old(plane).width,
            old(plane).height,
            old(plane).data@,
            mask.values(),
            *old(context),
            final(plane).data@,
            *final(context),
            r,
        ),
{
    let mut i: usize = 0;
    let ghost start = chain@;
    let ghost w = plane.width;
    let ghost h = plane.height;
    let ghost data = plane.data@;
    while i < chain.len()
        invariant
            i <= chain@.len(),
            start == old(chain)@,
            alike(start, chain@),
            same_from(chain@, start, i as int),
            plane.wf(),
            plane.width == w && plane.height == h,
            w == old(plane).width && h == old(plane).height,
            data == old(plane).data@,
            mask.wf(),
            mask.width == plane.width,
            mask.height == plane.height,
            final(plane.data)@ == final(old(plane).data)@,
            post_below(
                start,
                chain@,
                i as int,
                w,
                h,
                data,
                mask.values(),
                *old(context),
                plane.data@,
                *context,
            ),
        decreases start.len() - i,
    {
        let ghost before = chain@;
        let ghost d = plane.data@;
        let ghost c = *context;
        assert(same_at(before, start, i as int));
        let r = if chain[i].enabled {
            let started = segmentation::now();
            let r = chain[i].effect.process(plane, mask, context);
            let name: &'static str = chain[i].effect.name();
            let ghost ran = *context;
            let ghost call = PostCall {
                width: w,
                height: h,
                plane: d,
                mask: mask.values(),
                context: c,
                plane_after: plane.data@,
                context_after: ran,
            };
            assert(runs_at(start, chain@, i as int, call, r));
            record_stage(context, "post", name, started);
            assert(staged(ran, *context, "post"@, ident_at(start, i as int)));
            r
        } else {
            Ok(())
        };
        assert(r is Ok ==> r->Ok_0 == ());
        assert(post_step(
            start,
            chain@,
            i as int,
            w,
            h,
            d,
            mask.values(),
            c,
            plane.data@,
            *context,
            r,
        ));
        proof {
            assert forall|k: int| 0 <= k < before.len() && k != i implies #[trigger] same_at(
                chain@,
                before,
                k,
            ) by {}
            lemma_alike(start, before, chain@, i as int);
            lemma_post_below(
                start,
                before,
                chain@,
                i as int,
                w,
                h,
                data,
                mask.values(),
                *old(context),
                d,
                c,
            );
            assert forall|k: int| i < k < start.len() implies #[trigger] same_at(
                chain@,
                start,
                k,
            ) by {
                assert(same_at(before, start, k));
            }
        }
        if r.is_err() {
            assert(post_fails(
                start,
                chain@,
                i as int,
                w,
                h,
                data,
                mask.values(),
                *old(context),
                plane.data@,
                *context,
                r,
            ));
            return r;
        }
        assert(r == Ok::<(), EffectError>(()));
        assert(post_step(
            start,
            chain@,
            (i + 1) - 1,
            w,
            h,
            d,
                mask.values(),
            c,
            plane.data@,
            *context,
            Ok(()),
        ));
        assert(post_below(
            start,
            chain@,
            (i + 1) - 1,
            w,
            h,
            data,
            mask.values(),
            *old(context),
            d,
            c,
        ));
        i = i + 1;
    }
    Ok(())
}

/// Whether running a chain, and timing that as a whole, may end as given.
pub open spec fn mask_timed(
    chain: Seq<Slot<dyn MaskEffect>>,
    after: Seq<Slot<dyn MaskEffect>>,
    width: u32,
    height: u32,
    data: Seq<u32>,
    context: FrameContext,
    data_after: Seq<u32>,
    context_after: FrameContext,
    r: Result<(), EffectError>,
) -> bool {
    exists|c: FrameContext| #[trigger]
        staged(c, context_after, COMPOSITE@, "mask_chain"@) && mask_run(
            chain,
            after,
            width,
            height,
            data,
            context,
            data_after,
            c,
            r,
        )
}

/// Whether running a chain, and timing that as a whole, may end as given.
pub open spec fn plane_timed(
    chain: Seq<Slot<dyn PlaneEffect>>,
    after: Seq<Slot<dyn PlaneEffect>>,
    section: Seq<char>,
    stage: Seq<char>,
    width: u32,
    height: u32,
    data: Seq<u8>,
    context: FrameContext,
    data_after: Seq<u8>,
    context_after: FrameContext,
    r: Result<(), EffectError>,
) -> bool {
    exists|c: FrameContext| #[trigger]
        staged(c, context_after, COMPOSITE@, stage) && plane_run(
            chain,
            after,
            section,
            width,
            height,
            data,
            context,
            data_after,
            c,
            r,
        )
}

/// Whether running a chain, and timing that as a whole, may end as given.
pub open spec fn post_timed(
    chain: Seq<Slot<dyn PostEffect>>,
    after: Seq<Slot<dyn PostEffect>>,
    width: u32,
    height: u32,
    data: Seq<u8>,
    mask: Seq<u32>,
    context: FrameContext,
    data_after: Seq<u8>,
    context_after: FrameContext,
    r: Result<(), EffectError>,
) -> bool {
    exists|c: FrameContext| #[trigger]
        staged(c, context_after, COMPOSITE@, "post_chain"@) && post_run(
            chain,
            after,
            width,
            height,
            data,
            mask,
            context,
            data_after,
            c,
            r,
        )
}

/// The first `n` slots leave the disabled ones among them as they are.
proof fn lemma_mask_disabled(
    chain: Seq<Slot<dyn MaskEffect>>,
    after: Seq<Slot<dyn MaskEffect>>,
    n: int,
    width: u32,
    height: u32,
    data: Seq<u32>,
    context: FrameContext,
    data_after: Seq<u32>,
    context_after: FrameContext,
    i: int,
)
    requires
        mask_below(chain, after, n, width, height, data, context, data_after, context_after),
        0 <= i < n,
        !on_at(chain, i),
    ensures
        same_at(after, chain, i),
    decreases n,
{
    let (d, c) = choose|d: Seq<u32>, c: FrameContext|
        mask_below(chain, after, n - 1, width, height, data, context, d, c)
            && #[trigger] mask_step(
            chain,
            after,
            n - 1,
            width,
            height,
            d,
            c,
            data_after,
            context_after,
            Ok(()),
        );
    if i < n - 1 {
        lemma_mask_disabled(chain, after, n - 1, width, height, data, context, d, c, i);
    }
}

/// Running a chain leaves its disabled effects as they are, whatever the outcome.
pub proof fn law_mask_disabled(
    chain: Seq<Slot<dyn MaskEffect>>,
    after: Seq<Slot<dyn MaskEffect>>,
    width: u32,
    height: u32,
    data: Seq<u32>,
    context: FrameContext,
    data_after: Seq<u32>,
    context_after: FrameContext,
    r: Result<(), EffectError>,
    i: int,
)
    requires
        mask_timed(chain, after, width, height, data, context, data_after, context_after, r),
        0 <= i < chain.len(),
        !on_at(chain, i),
    ensures
        same_at(after, chain, i),
{
    let timed_from = choose|c: FrameContext| #[trigger]
        staged(c, context_after, COMPOSITE@, "mask_chain"@) && mask_run(
            chain,
            after,
            width,
            height,
            data,
            context,
            data_after,
            c,
            r,
        );
    if r is Ok {
        lemma_mask_disabled(
            chain,
            after,
            chain.len() as int,
            width,
            height,
            data,
            context,
            data_after,
            timed_from,
            i,
        );
    } else {
        let n = choose|n: int|
            0 <= n < chain.len() && #[trigger] mask_fails(
                chain,
                after,
                n,
                width,
                height,
                data,
                context,
                data_after,
                timed_from,
                r,
            ) && same_from(after, chain, n + 1);
        let (d, c) = choose|d: Seq<u32>, c: FrameContext|
            mask_below(chain, after, n, width, height, data, context, d, c) && #[trigger] mask_step(
                chain,
                after,
                n,
                width,
                height,
                d,
                c,
                data_after,
                timed_from,
                r,
            );
        if i < n {
            lemma_mask_disabled(chain, after, n, width, height, data, context, d, c, i);
        } else if i > n {
            assert(same_at(after, chain, i));
        }
    }
}

/// The first `n` slots leave the disabled ones among them as they are.
proof fn lemma_plane_disabled(
    chain: Seq<Slot<dyn PlaneEffect>>,
    after: Seq<Slot<dyn PlaneEffect>>,
    section: Seq<char>,
    n: int,
    width: u32,
    height: u32,
    data: Seq<u8>,
    context: FrameContext,
    data_after: Seq<u8>,
    context_after: FrameContext,
    i: int,
)
    requires
        plane_below(
            chain,
            after,
            section,
            n,
            width,
            height,
            data,
            context,
            data_after,
            context_after,
        ),
        0 <= i < n,
        !on_at(chain, i),
    ensures
        same_at(after, chain, i),
    decreases n,
{
    let (d, c) = choose|d: Seq<u8>, c: FrameContext|
        plane_below(chain, after, section, n - 1, width, height, data, context, d, c)
            && #[trigger] plane_step(
            chain,
            after,
            section,
            n - 1,
            width,
            height,
            d,
            c,
            data_after,
            context_after,
            Ok(()),
        );
    if i < n - 1 {
        lemma_plane_disabled(chain, after, section, n - 1, width, height, data, context, d, c, i);
    }
}

/// Running a chain leaves its disabled effects as they are, whatever the outcome.
pub proof fn law_plane_disabled(
    chain: Seq<Slot<dyn PlaneEffect>>,
    after: Seq<Slot<dyn PlaneEffect>>,
    section: Seq<char>,
    stage: Seq<char>,
    width: u32,
    height: u32,
    data: Seq<u8>,
    context: FrameContext,
    data_after: Seq<u8>,
    context_after: FrameContext,
    r: Result<(), EffectError>,
    i: int,
)
    requires
        plane_timed(
            chain,
            after,
            section,
            stage,
            width,
            height,
            data,
            context,
            data_after,
            context_after,
            r,
        ),
        0 <= i < chain.len(),
        !on_at(chain, i),
    ensures
        same_at(after, chain, i),
{
    let timed_from = choose|c: FrameContext| #[trigger]
        staged(c, context_after, COMPOSITE@, stage) && plane_run(
            chain,
            after,
            section,
            width,
            height,
            data,
            context,
            data_after,
            c,
            r,
        );
    if r is Ok {
        lemma_plane_disabled(
            chain,
            after,
            section,
            chain.len() as int,
            width,
            height,
            data,
            context,
            data_after,
            timed_from,
            i,
        );
    } else {
        let n = choose|n: int|
            0 <= n < chain.len() && #[trigger] plane_fails(
                chain,
                after,
                section,
                n,
                width,
                height,
                data,
                context,
                data_after,
                timed_from,
                r,
            ) && same_from(after, chain, n + 1);
        let (d, c) = choose|d: Seq<u8>, c: FrameContext|
            plane_below(chain, after, section, n, width, height, data, context, d, c)
                && #[trigger] plane_step(
                chain,
                after,
                section,
                n,
                width,
                height,
                d,
                c,
                data_after,
                timed_from,
                r,
            );
        if i < n {
            lemma_plane_disabled(chain, after, section, n, width, height, data, context, d, c, i);
        } else if i > n {
            assert(same_at(after, chain, i));
        }
    }
}

/// The first `n` slots leave the disabled ones among them as they are.
proof fn lemma_post_disabled(
    chain: Seq<Slot<dyn PostEffect>>,
    after: Seq<Slot<dyn PostEffect>>,
    n: int,
    width: u32,
    height: u32,
    data: Seq<u8>,
    mask: Seq<u32>,
    context: FrameContext,
    data_after: Seq<u8>,
    context_after: FrameContext,
    i: int,
)
    requires
        post_below(chain, after, n, width, height, data, mask, context, data_after, context_after),
        0 <= i < n,
        !on_at(chain, i),
    ensures
        same_at(after, chain, i),
    decreases n,
{
    let (d, c) = choose|d: Seq<u8>, c: FrameContext|
        post_below(chain, after, n - 1, width, height, data, mask, context, d, c)
            && #[trigger] post_step(
            chain,
            after,
            n - 1,
            width,
            height,
            d,
            mask, c,
            data_after,
            context_after,
            Ok(()),
        );
    if i < n - 1 {
        lemma_post_disabled(chain, after, n - 1, width, height, data, mask, context, d, c, i);
    }
}

/// Running a chain leaves its disabled effects as they are, whatever the outcome.
pub proof fn law_post_disabled(
    chain: Seq<Slot<dyn PostEffect>>,
    after: Seq<Slot<dyn PostEffect>>,
    width: u32,
    height: u32,
    data: Seq<u8>,
    mask: Seq<u32>,
    context: FrameContext,
    data_after: Seq<u8>,
    context_after: FrameContext,
    r: Result<(), EffectError>,
    i: int,
)
    requires
        post_timed(chain, after, width, height, data, mask, context, data_after, context_after, r),
        0 <= i < chain.len(),
        !on_at(chain, i),
    ensures
        same_at(after, chain, i),
{
    let timed_from = choose|c: FrameContext| #[trigger]
        staged(c, context_after, COMPOSITE@, "post_chain"@) && post_run(
            chain,
            after,
            width,
            height,
            data,
            mask,
            context,
            data_after,
            c,
            r,
        );
    if r is Ok {
        lemma_post_disabled(
            chain,
            after,
            chain.len() as int,
            width,
            height,
            data,
            mask,
            context,
            data_after,
            timed_from,
            i,
        );
    } else {
        let n = choose|n: int|
            0 <= n < chain.len() && #[trigger] post_fails(
                chain,
                after,
                n,
                width,
                height,
                data,
                mask,
                context,
                data_after,
                timed_from,
                r,
            ) && same_from(after, chain, n + 1);
        let (d, c) = choose|d: Seq<u8>, c: FrameContext|
            post_below(chain, after, n, width, height, data, mask, context, d, c)
                && #[trigger] post_step(
                chain,
                after,
                n,
                width,
                height,
                d,
                mask,
                c,
                data_after,
                timed_from,
                r,
            );
        if i < n {
            lemma_post_disabled(chain, after, n, width, height, data, mask, context, d, c, i);
        } else if i > n {
            assert(same_at(after, chain, i));
        }
    }
}

/// Setting a flag again changes nothing, and reports so.
pub proof fn law_flag_set_twice<E: ?Sized + SubEffectAdapter>(
    before: Seq<Slot<E>>,
    after: Seq<Slot<E>>,
    again: Seq<Slot<E>>,
    name: Seq<char>,
    enabled: bool,
    section: SubchainKind,
    r: Result<bool, EffectError>,
    q: Result<bool, EffectError>,
)
    requires
        has_name(before, name),
        flag_set(before, after, name, enabled, section, r),
        flag_set(after, again, name, enabled, section, q),
    ensures
        again == after,
        q == Ok::<bool, EffectError>(false),
{
    assert forall|i: int| 0 <= i < after.len() implies !#[trigger] flips(after, i, name, enabled) by {
        assert(slot_set(before, after, i, name, enabled));
        if !flips(before, i, name, enabled) {
            assert(same_at(after, before, i));
            assert(ident_at(after, i) == ident_at(before, i));
            assert(on_at(after, i) == on_at(before, i));
        }
    }
    assert forall|i: int| 0 <= i < after.len() implies again[i] == after[i] by {
        assert(slot_set(after, again, i, name, enabled));
        assert(!flips(after, i, name, enabled));
        assert(same_at(again, after, i));
    }
    assert(again =~= after);
    let i = choose|i: int| 0 <= i < before.len() && #[trigger] ident_at(before, i) == name;
    assert(slot_set(before, after, i, name, enabled));
    if !flips(before, i, name, enabled) {
        assert(same_at(after, before, i));
    }
    assert(ident_at(after, i) == name);
    assert(has_name(after, name));
}

/// Disabling an effect and enabling it again brings every flag back.
pub proof fn law_flag_set_back<E: ?Sized + SubEffectAdapter>(
    before: Seq<Slot<E>>,
    after: Seq<Slot<E>>,
    again: Seq<Slot<E>>,
    name: Seq<char>,
    section: SubchainKind,
    r: Result<bool, EffectError>,
    q: Result<bool, EffectError>,
)
    requires
        flag_set(before, after, name, false, section, r),
        flag_set(after, again, name, true, section, q),
        forall|i: int|
            0 <= i < before.len() && #[trigger] ident_at(before, i) == name ==> on_at(before, i),
    ensures
        alike(before, again),
{
    assert forall|i: int| 0 <= i < before.len() implies #[trigger] like_at(before, again, i) by {
        assert(slot_set(before, after, i, name, false));
        assert(slot_set(after, again, i, name, true));
        if ident_at(before, i) == name {
            assert(flips(before, i, name, false));
            assert(flips(after, i, name, true));
        } else {
            assert(!flips(before, i, name, false));
            assert(same_at(after, before, i));
            assert(ident_at(after, i) == ident_at(before, i));
            assert(!flips(after, i, name, true));
            assert(same_at(again, after, i));
            assert(ident_at(again, i) == ident_at(after, i));
            assert(on_at(again, i) == on_at(after, i));
        }
    }
}

} // verus!
