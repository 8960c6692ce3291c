//! Choice of a blur backend, and a fallback from one backend to another.

use vstd::prelude::*;
use crate::backend::blur::{
    BackendRules, BackendState, BlurBackend, BlurHandle, BlurRequest, CpuBlurBackend,
};
use crate::backend::overrides::{BackendOverrides, BlurBackendChoice};
use crate::error::EffectError;
use crate::metrics::{CounterValues, Counters};

verus! {

/// Sticky one-way fallback from a primary backend to a secondary.
///
/// The first error of the primary is counted, the primary is dropped, and the
/// same call goes to the secondary; so does every later one.
pub struct StickyBlurFallback {
    primary: Option<BlurHandle>,
    secondary: BlurHandle,
    primary_name: &'static str,
    secondary_name: &'static str,
    counters: Counters,
    plan: Ghost<(BackendRules, BackendRules)>,
}

/// The counters after one more fallback.
pub open spec fn one_more_fallback(c: CounterValues) -> CounterValues {
    CounterValues {
        blur_runtime_fallback_gpu_to_cpu: c.blur_runtime_fallback_gpu_to_cpu.wrapping_add(1),
        ..c
    }
}

/// Whether what the backends inside hold is what the whole shows: the size and the
/// name of the one that blurs.
pub open spec fn shows(t: BackendState) -> bool {
    t.fits == t.parts[0].fits && t.id == t.parts[0].id
}

/// Whether a fallback from a backend with the rules `first` to one with the rules
/// `second` may be prepared for frames of a size: both are prepared, and a failure
/// of the primary ends it.
pub open spec fn both_prepared(
    first: BackendRules,
    second: BackendRules,
    s: BackendState,
    size: (u32, u32),
    t: BackendState,
    r: Result<(), EffectError>,
) -> bool {
    &&& shows(t)
    &&& t.tally == s.tally
    &&& t.parts.len() == s.parts.len()
    &&& if s.parts.len() == 2 {
        exists|q: Result<(), EffectError>| #[trigger]
            (first.prepare)(s.parts[0], size, t.parts[0], q) && if q is Err {
                r == q && t.parts[1] == s.parts[1]
            } else {
                (second.prepare)(s.parts[1], size, t.parts[1], r)
            }
    } else {
        (second.prepare)(s.parts[0], size, t.parts[0], r)
    }
}

/// Whether a fallback from a backend with the rules `first` to one with the rules
/// `second` may answer a request: while the primary is there its success is the
/// answer, and its failure drops it, is counted, and sends the same request to the
/// secondary; later requests go to the secondary.
pub open spec fn either_blurred(
    first: BackendRules,
    second: BackendRules,
    s: BackendState,
    q: BlurRequest,
    dst: Seq<u8>,
    t: BackendState,
    r: Result<(), EffectError>,
) -> bool {
    &&& shows(t)
    &&& if s.parts.len() == 2 {
        exists|mid: Seq<u8>, left: BackendState, p: Result<(), EffectError>| #[trigger]
            (first.blur)(s.parts[0], q, mid, left, p) && if p is Ok {
                &&& r == p
                &&& dst == mid
                &&& t.parts == seq![left, s.parts[1]]
                &&& t.tally == s.tally
            } else {
                &&& (second.blur)(
                    s.parts[1],
                    BlurRequest { dst: mid, ..q },
                    dst,
                    t.parts[0],
                    r,
                )
                &&& t.parts.len() == 1
                &&& t.tally == Some(one_more_fallback(s.tally->0))
            }
    } else {
        &&& (second.blur)(s.parts[0], q, dst, t.parts[0], r)
        &&& t.parts.len() == 1
        &&& t.tally == s.tally
    }
}

/// What a fallback may do.
pub open spec fn fallback_rules(first: BackendRules, second: BackendRules) -> BackendRules {
    BackendRules {
        prepare: |s: BackendState, size: (u32, u32), t: BackendState, r: Result<(), EffectError>|
            both_prepared(first, second, s, size, t, r),
        blur: |
            s: BackendState,
            q: BlurRequest,
            dst: Seq<u8>,
            t: BackendState,
            r: Result<(), EffectError>,
        | either_blurred(first, second, s, q, dst, t, r),
    }
}

impl StickyBlurFallback {
    /// The primary, until it has failed.
    pub closed spec fn first(&self) -> Option<BlurHandle> {
        self.primary
    }

    /// The secondary.
    pub closed spec fn second(&self) -> BlurHandle {
        self.secondary
    }

    /// The counters.
    pub closed spec fn counted(&self) -> Counters {
        self.counters
    }

    /// Wrap two backends; the names are those of the transition's diagnostics.
    #[must_use]
    pub fn new(
        primary: BlurHandle,
        secondary: BlurHandle,
        primary_name: &'static str,
        secondary_name: &'static str,
        counters: Counters,
    ) -> (r: Self)
        requires
            primary.backend.wf(),
            secondary.backend.wf(),
        ensures
            r.wf(),
            r.first() == Some(primary),
            r.second() == secondary,
            r.counted() == counters,
            r.names() == (primary_name@, secondary_name@),
            r.built_with() == (primary.backend.rules(), secondary.backend.rules()),
    {
        StickyBlurFallback {
            primary: Some(primary),
            secondary,
            primary_name,
            secondary_name,
            counters,
            plan: Ghost((primary.backend.rules(), secondary.backend.rules())),
        }
    }

    /// Rules of the two backends that the fallback was built with.
    pub closed spec fn built_with(&self) -> (BackendRules, BackendRules) {
        self.plan@
    }

    /// Whether the backends are those that the fallback was built with.
    pub open spec fn intact(&self) -> bool {
        &&& self.second().backend.rules() == self.built_with().1
        &&& self.first() matches Some(p) ==> p.backend.rules() == self.built_with().0
    }

    /// Whether the primary has failed.
    #[must_use]
    pub fn has_fallen_back(&self) -> (r: bool)
        ensures
            r == self.first() is None,
    {
        self.primary.is_none()
    }

    /// The counters.
    #[must_use]
    pub fn counters(&self) -> (r: &Counters)
        ensures
            *r == self.counted(),
    {
        &self.counters
    }

    /// Names of the primary and the secondary.
    pub closed spec fn names(&self) -> (Seq<char>, Seq<char>) {
        (self.primary_name@, self.secondary_name@)
    }

    /// Names of the primary and the secondary for diagnostics.
    #[must_use]
    pub fn labels(&self) -> (r: (&'static str, &'static str))
        ensures
            (r.0@, r.1@) == self.names(),
    {
        (self.primary_name, self.secondary_name)
    }
}

/// Whether preparing may leave `after` of `before` and report `r` where the
/// primary, if it is there, reports `first`: both are prepared, and a failure of
/// the primary ends it.
pub open spec fn prepared(
    before: &StickyBlurFallback,
    after: &StickyBlurFallback,
    width: u32,
    height: u32,
    first: Result<(), EffectError>,
    r: Result<(), EffectError>,
) -> bool {
    let second = before.second().prepares((width, height), after.second(), r);
    &&& after.names() == before.names()
    &&& after.built_with() == before.built_with()
    &&& after.counted() == before.counted()
    &&& match before.first() {
        Some(p) => {
            &&& after.first() matches Some(kept) && p.prepares((width, height), kept, first)
            &&& if first is Err {
                r == first && after.second() == before.second()
            } else {
                second
            }
        },
        None => after.first() is None && second,
    }
}

/// Whether a request may leave `after` of `before`, the destination `dst` and the
/// answer `r`, where the primary, if it is there, answers `first` and leaves the
/// destination `mid`: its success is the answer, its failure drops it, is
/// counted, and sends the same request to the secondary.
pub open spec fn answered(
    before: &StickyBlurFallback,
    after: &StickyBlurFallback,
    q: BlurRequest,
    mid: Seq<u8>,
    first: Result<(), EffectError>,
    dst: Seq<u8>,
    r: Result<(), EffectError>,
) -> bool {
    &&& after.names() == before.names()
    &&& after.built_with() == before.built_with()
    &&& match before.first() {
        Some(p) => if first is Ok {
            &&& r == first
            &&& dst == mid
            &&& after.first() matches Some(kept) && p.answers(q, mid, kept, first)
            &&& after.second() == before.second()
            &&& after.counted() == before.counted()
        } else {
            &&& exists|left: BlurHandle| #[trigger] p.answers(q, mid, left, first)
            &&& before.second().answers(BlurRequest { dst: mid, ..q }, dst, after.second(), r)
            &&& after.first() is None
            &&& after.counted()@ == one_more_fallback(before.counted()@)
        },
        None => {
            &&& before.second().answers(q, dst, after.second(), r)
            &&& after.first() is None
            &&& after.counted() == before.counted()
        },
    }
}

/// Preparing a fallback is what its rules allow.
proof fn lemma_prepared(
    before: &StickyBlurFallback,
    after: &StickyBlurFallback,
    width: u32,
    height: u32,
    first: Result<(), EffectError>,
    r: Result<(), EffectError>,
)
    requires
        before.intact(),
        prepared(before, after, width, height, first, r),
    ensures
        both_prepared(
            before.built_with().0,
            before.built_with().1,
            before.state(),
            (width, height),
            after.state(),
            r,
        ),
        after.intact(),
{
    if before.first() is Some {
        assert((before.built_with().0.prepare)(
            before.state().parts[0],
            (width, height),
            after.state().parts[0],
            first,
        ));
    }
}

/// What a fallback answers is what its rules allow.
proof fn lemma_answered(
    before: &StickyBlurFallback,
    after: &StickyBlurFallback,
    q: BlurRequest,
    mid: Seq<u8>,
    first: Result<(), EffectError>,
    dst: Seq<u8>,
    r: Result<(), EffectError>,
)
    requires
        before.intact(),
        answered(before, after, q, mid, first, dst, r),
    ensures
        either_blurred(
            before.built_with().0,
            before.built_with().1,
            before.state(),
            q,
            dst,
            after.state(),
            r,
        ),
        after.intact(),
{
    if let Some(p) = before.first() {
        let s = before.state();
        let t = after.state();
        if first is Ok {
            let kept = after.first()->0;
            assert((before.built_with().0.blur)(s.parts[0], q, mid, kept.backend.state(), first));
            assert(t.parts =~= seq![kept.backend.state(), s.parts[1]]);
        } else {
            let left = choose|left: BlurHandle| #[trigger] p.answers(q, mid, left, first);
            assert((before.built_with().0.blur)(s.parts[0], q, mid, left.backend.state(), first));
        }
    }
}

impl BlurBackend for StickyBlurFallback {
    open spec fn rules(&self) -> BackendRules {
        fallback_rules(self.built_with().0, self.built_with().1)
    }

    open spec fn state(&self) -> BackendState {
        let second = self.second().backend.state();
        let parts = match self.first() {
            Some(p) => seq![p.backend.state(), second],
            None => seq![second],
        };
        BackendState {
            id: parts[0].id,
            fits: parts[0].fits,
            tally: Some(self.counted()@),
            parts,
        }
    }

    open spec fn wf(&self) -> bool {
        &&& self.intact()
        &&& self.second().backend.wf()
        &&& self.first() matches Some(p) ==> p.backend.wf()
    }

    fn name(&self) -> (r: &'static str) {
        match &self.primary {
            Some(p) => p.backend.name(),
            None => self.secondary.backend.name(),
        }
    }

    fn prepare(&mut self, width: u32, height: u32) -> (r: Result<(), EffectError>)
        ensures
            exists|first: Result<(), EffectError>| #[trigger]
                prepared(old(self), final(self), width, height, first, r),
    {
        let mut first: Result<(), EffectError> = Ok(());
        if let Some(p) = &mut self.primary {
            let q = p.backend.prepare(width, height);
            if q.is_err() {
                assert(prepared(old(self), self, width, height, q, q));
                proof {
                    lemma_prepared(old(self), self, width, height, q, q);
                }
                return q;
            }
            first = q;
        }
        let r = self.secondary.backend.prepare(width, height);
        assert(prepared(old(self), self, width, height, first, r));
        proof {
            lemma_prepared(old(self), self, width, height, first, r);
        }
        r
    }

    fn blur(
        &mut self,
        src: &[u8],
        dst: &mut [u8],
        width: u32,
        height: u32,
        radius: u32,
        passes: u32,
    ) -> (r: Result<(), EffectError>)
        ensures
            exists|mid: Seq<u8>, first: Result<(), EffectError>| #[trigger]
                answered(
                    old(self),
                    final(self),
                    (BlurRequest { src: src@, dst: old(dst)@, width, height, radius, passes }),
                    mid,
                    first,
                    final(dst)@,
                    r,
                ),
    {
        let ghost q = BlurRequest { src: src@, dst: dst@, width, height, radius, passes };
        if let Some(p) = &mut self.primary {
            let ghost started = *p;
            let first = p.backend.blur(src, dst, width, height, radius, passes);
            let ghost mid = dst@;
            let ghost left = *p;
            assert(started.answers(q, mid, left, first));
            if first.is_ok() {
                assert(answered(old(self), self, q, mid, first, dst@, first));
                proof {
                    lemma_answered(old(self), self, q, mid, first, dst@, first);
                }
                return first;
            }
            self.counters.inc_blur_runtime_fallback_gpu_to_cpu();
            self.primary = None;
            let r = self.secondary.backend.blur(src, dst, width, height, radius, passes);
            assert(answered(old(self), self, q, mid, first, dst@, r));
            proof {
                lemma_answered(old(self), self, q, mid, first, dst@, r);
            }
            return r;
        }
        let r = self.secondary.backend.blur(src, dst, width, height, radius, passes);
        assert(answered(old(self), self, q, dst@, r, dst@, r));
        proof {
            lemma_answered(old(self), self, q, dst@, r, dst@, r);
        }
        r
    }

    fn published(&self) -> (r: Option<&Counters>)
        ensures
            r matches Some(c) && *c == self.counted(),
    {
        Some(&self.counters)
    }
}

/// Whether `r` reports that the shader backend is not built in.
pub open spec fn not_built_in(r: Result<BlurHandle, EffectError>) -> bool {
    r matches Err(e) && (e matches EffectError::PrepareFailed { name, reason } && name@
        == "blur backend factory"@ && reason@
        == "FLUXFRAME_FORCE_BLUR_BACKEND=wgpu but the `wgpu` Cargo feature is disabled in this build"@)
}

/// Whether `h` is a fallback from `primary` to the CPU, with the counters
/// `counters`.
pub open spec fn falls_back(h: BlurHandle, primary: BlurHandle, counters: Counters) -> bool {
    exists|s: StickyBlurFallback| #[trigger]
        runs(h, s) && s.first() == Some(primary) && on_cpu(s.second()) && s.counted() == counters
            && s.names() == ("wgpu"@, "cpu"@)
}

/// Whether `h` is the box blur on the CPU, without buffers yet.
pub open spec fn on_cpu(h: BlurHandle) -> bool {
    exists|b: CpuBlurBackend| #[trigger] runs(h, b) && b.size() == (0u32, 0u32)
}

/// Whether `h` is the backend `s` behind a pointer.
pub open spec fn runs<B: BlurBackend>(h: BlurHandle, s: B) -> bool {
    h.backend.rules() == s.rules() && h.backend.state() == s.state()
}

/// Choose a blur backend.
///
/// `Cpu` and `Auto` give the box blur on the CPU.  `Wgpu` gives the backend that
/// `probe` finds, or its error; without a `probe` the backend is not built in.
/// With counters the probed backend falls back to the CPU at run time.
pub fn build_blur_backend<P: FnOnce() -> Result<BlurHandle, EffectError>>(
    overrides: BackendOverrides,
    counters: Option<Counters>,
    probe: Option<P>,
) -> (r: Result<BlurHandle, EffectError>)
    requires
        probe matches Some(p) ==> call_requires(p, ()),
        probe matches Some(p) ==> forall|h: BlurHandle| #[trigger]
            call_ensures(p, (), Ok::<BlurHandle, EffectError>(h)) ==> h.backend.wf(),
    ensures
        r matches Ok(h) ==> h.backend.wf(),
        match overrides.blur {
            BlurBackendChoice::Cpu | BlurBackendChoice::Auto => r matches Ok(h) && on_cpu(h),
            BlurBackendChoice::Wgpu => match probe {
                None => not_built_in(r),
                Some(p) => exists|found: Result<BlurHandle, EffectError>| #[trigger]
                    call_ensures(p, (), found) && match (found, counters) {
                        (Err(_), _) => r == found,
                        (Ok(_), None) => r == found,
                        (Ok(h), Some(c)) => r matches Ok(w) && falls_back(w, h, c),
                    },
            },
        },
{
    match overrides.blur {
        BlurBackendChoice::Cpu | BlurBackendChoice::Auto => Ok(cpu_handle()),
        BlurBackendChoice::Wgpu => match probe {
            None => Err(
                EffectError::prepare_failed(
                    "blur backend factory",
                    "FLUXFRAME_FORCE_BLUR_BACKEND=wgpu but the `wgpu` Cargo feature is disabled in this build".to_owned(),
                ),
            ),
            Some(p) => {
                let found = p();
                match (found, counters) {
                    (Ok(first), Some(c)) => Ok(wrap_with_fallback(first, c)),
                    (other, _) => other,
                }
            },
        },
    }
}

/// The box blur on the CPU.
fn cpu_handle() -> (r: BlurHandle)
    ensures
        r.backend.wf(),
        on_cpu(r),
{
    let cpu = CpuBlurBackend::new();
    let ghost b = cpu;
    let r = BlurHandle { backend: Box::new(cpu) };
    assert(runs(r, b));
    r
}

/// The backend with a fallback to the CPU.
fn wrap_with_fallback(primary: BlurHandle, counters: Counters) -> (r: BlurHandle)
    requires
        primary.backend.wf(),
    ensures
        r.backend.wf(),
        falls_back(r, primary, counters),
{
    let second = cpu_handle();
    let sticky = StickyBlurFallback::new(primary, second, "wgpu", "cpu", counters);
    let ghost s = sticky;
    let r = BlurHandle { backend: Box::new(sticky) };
    assert(runs(r, s));
    r
}

/// A call on a fallback, and what came of it.
pub ghost enum StickyCall {
    /// A preparation.
    Prepare {
        /// Width in pixels.
        width: u32,
        /// Height in pixels.
        height: u32,
        /// What the primary reports, if it is there.
        first: Result<(), EffectError>,
        /// What is reported.
        r: Result<(), EffectError>,
    },
    /// A blur.
    Blur {
        /// What is asked.
        q: BlurRequest,
        /// The destination as the primary leaves it.
        mid: Seq<u8>,
        /// What the primary answers, if it is there.
        first: Result<(), EffectError>,
        /// The destination after the call.
        dst: Seq<u8>,
        /// What is answered.
        r: Result<(), EffectError>,
    },
}

/// Whether a call may lead from `before` to `after`.
pub open spec fn stepped(
    before: &StickyBlurFallback,
    after: &StickyBlurFallback,
    call: StickyCall,
) -> bool {
    match call {
        StickyCall::Prepare { width, height, first, r } => prepared(
            before,
            after,
            width,
            height,
            first,
            r,
        ),
        StickyCall::Blur { q, mid, first, dst, r } => answered(
            before,
            after,
            q,
            mid,
            first,
            dst,
            r,
        ),
    }
}

/// Whether call `i` leads from state `i` to the next.
pub open spec fn stepped_at(
    states: Seq<StickyBlurFallback>,
    calls: Seq<StickyCall>,
    i: int,
) -> bool {
    stepped(&states[i], &states[i + 1], calls[i])
}

/// Whether `calls` may lead through `states`.
pub open spec fn history(states: Seq<StickyBlurFallback>, calls: Seq<StickyCall>) -> bool {
    &&& states.len() == calls.len() + 1
    &&& forall|i: int| 0 <= i < calls.len() ==> #[trigger] stepped_at(states, calls, i)
}

/// Whether call `i` is a blur that the primary fails.
pub open spec fn primary_fails_at(
    states: Seq<StickyBlurFallback>,
    calls: Seq<StickyCall>,
    i: int,
) -> bool {
    states[i].first() is Some && (calls[i] matches StickyCall::Blur { first, .. } && first is Err)
}

/// Where the primary fails every time it can be asked, the call goes to the
/// secondary, which sees the same request, and the fallback is counted.
pub proof fn law_failure_forces_fallback(
    before: &StickyBlurFallback,
    after: &StickyBlurFallback,
    q: BlurRequest,
    mid: Seq<u8>,
    first: Result<(), EffectError>,
    dst: Seq<u8>,
    r: Result<(), EffectError>,
)
    requires
        answered(before, after, q, mid, first, dst, r),
        before.first() matches Some(p) && forall|
            d: Seq<u8>,
            left: BlurHandle,
            e: Result<(), EffectError>,
        | #[trigger] p.answers(q, d, left, e) ==> e is Err,
    ensures
        after.first() is None,
        before.second().answers((BlurRequest { dst: mid, ..q }), dst, after.second(), r),
        after.counted()@.blur_runtime_fallback_gpu_to_cpu
            == before.counted()@.blur_runtime_fallback_gpu_to_cpu.wrapping_add(1),
{
}

/// Over any calls, a fallback leaves the primary exactly when a blur of the
/// primary fails, never goes back to it, counts that once, and goes by the name of
/// the backend that answers.
pub proof fn law_falls_back_once(states: Seq<StickyBlurFallback>, calls: Seq<StickyCall>)
    requires
        history(states, calls),
        states[0].first() is Some,
    ensures
        states.last().first() is None <==> exists|i: int|
            0 <= i < calls.len() && #[trigger] primary_fails_at(states, calls, i),
        forall|i: int, j: int|
            0 <= i <= j < states.len() && (#[trigger] states[i]).first() is None ==> (
            #[trigger] states[j]).first() is None,
        states.last().counted()@.blur_runtime_fallback_gpu_to_cpu == (
        if states.last().first() is None {
            states[0].counted()@.blur_runtime_fallback_gpu_to_cpu.wrapping_add(1)
        } else {
            states[0].counted()@.blur_runtime_fallback_gpu_to_cpu
        }),
        states.last().state().id == (match states.last().first() {
            Some(p) => p.backend.state().id,
            None => states.last().second().backend.state().id,
        }),
    decreases calls.len(),
{
    if calls.len() > 0 {
        let n = calls.len() - 1;
        let earlier = states.drop_last();
        let fewer = calls.drop_last();
        assert forall|i: int| 0 <= i < fewer.len() implies #[trigger] stepped_at(
            earlier,
            fewer,
            i,
        ) by {
            assert(stepped_at(states, calls, i));
        }
        law_falls_back_once(earlier, fewer);
        assert(stepped_at(states, calls, n));
        assert(earlier.last() == states[n]);
        assert forall|i: int| 0 <= i < n implies #[trigger] primary_fails_at(states, calls, i)
            == primary_fails_at(earlier, fewer, i) by {}
        if earlier.last().first() is None {
            let i = choose|i: int| 0 <= i < n && #[trigger] primary_fails_at(earlier, fewer, i);
            assert(primary_fails_at(states, calls, i));
        } else if states.last().first() is None {
            assert(primary_fails_at(states, calls, n));
        }
        assert forall|i: int, j: int|
            0 <= i <= j < states.len() && (#[trigger] states[i]).first() is None implies (
        #[trigger] states[j]).first() is None by {
            if j < states.len() - 1 {
                assert(earlier[i].first() is None);
                assert(earlier[j].first() is None);
            } else if i < j {
                assert(earlier[i].first() is None);
                assert(earlier[n].first() is None);
            }
        }
    }
}

} // verus!
