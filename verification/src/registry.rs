//! Name-keyed registries of effect factories.
//!
//! A registry is generic over the kind of effect it makes (`dyn MaskEffect`,
//! `dyn PlaneEffect`, `dyn PostEffect`).  Each entry pairs a factory with the
//! effect's metadata, so a caller that inspects the inventory never has to
//! build an instance.

use vstd::prelude::*;
use crate::error::EffectError;
use crate::metadata::EffectMetadata;
use crate::name_map::NameMap;

verus! {

/// A freshly made effect.
pub struct NewEffect<E: ?Sized> {
    /// The effect.
    pub effect: Box<E>,
}

/// Makes fresh effects.
pub trait EffectFactory<E: ?Sized>: Send + Sync {
    /// Whether `made` is one that `build` may make.
    open spec fn may_build(&self, made: NewEffect<E>) -> bool {
        true
    }

    /// Make a brand-new effect.
    fn build(&self) -> (r: NewEffect<E>)
        ensures
            self.may_build(r),
    ;
}

/// One row of a registry.
#[verifier::reject_recursive_types(E)]
pub struct Entry<E: ?Sized> {
    /// Makes the effect.
    pub factory: Box<dyn EffectFactory<E>>,
    /// Describes the effect.
    pub metadata: EffectMetadata,
}

/// Name-keyed map of effect factories.
#[verifier::reject_recursive_types(E)]
pub struct EffectRegistry<E: ?Sized> {
    /// What the registry holds, for diagnostics (`"mask"`, `"plane"`, ...).
    kind: &'static str,
    entries: NameMap<&'static str, Entry<E>>,
}

impl<E: ?Sized> View for EffectRegistry<E> {
    type V = Map<Seq<char>, Entry<E>>;

    closed spec fn view(&self) -> Map<Seq<char>, Entry<E>> {
        self.entries@
    }
}

/// Whether `e` refuses `name` as unknown to a registry of `kind` effects.
pub open spec fn unknown_name(e: EffectError, kind: Seq<char>, name: Seq<char>) -> bool {
    e matches EffectError::InvalidConfig { name: n, reason, hint } && n@ == name && reason@
        == "unknown "@ + kind + " effect: not registered"@ && (hint matches Some(h) && h@
        == "known names: see fluxframe_effects::"@ + kind + "_effects"@)
}

impl<E: ?Sized> EffectRegistry<E> {
    /// Whether the names ascend.
    pub closed spec fn wf(&self) -> bool {
        self.entries.wf()
    }

    /// The registered names, in order.
    pub closed spec fn listing(&self) -> Seq<Seq<char>> {
        self.entries.listing()
    }

    /// What the registry holds.
    pub closed spec fn holds(&self) -> Seq<char> {
        self.kind@
    }

    /// Create an empty registry of `kind` effects.
    #[must_use]
    pub fn empty(kind: &'static str) -> (r: Self)
        ensures
            r.wf(),
            r@ == Map::<Seq<char>, Entry<E>>::empty(),
            r.listing().len() == 0,
            r.holds() == kind@,
    {
        EffectRegistry { kind, entries: NameMap::new() }
    }

    /// Register an entry; an earlier one of that name is replaced.
    pub fn register(&mut self, name: &'static str, entry: Entry<E>)
        requires
            old(self).wf(),
        ensures
            final(self).wf(),
            final(self).holds() == old(self).holds(),
            final(self)@ == old(self)@.insert(name@, entry),
    {
        self.entries.insert(name, entry);
    }

    /// Look up an entry.
    #[must_use]
    pub fn get(&self, name: &str) -> (r: Option<&Entry<E>>)
        requires
            self.wf(),
        ensures
            match r {
                Some(entry) => self@.contains_key(name@) && self@[name@] == *entry,
                None => !self@.contains_key(name@),
            },
    {
        self.entries.get(name)
    }

    /// Look up the metadata for a registered name.
    #[must_use]
    pub fn metadata(&self, name: &str) -> (r: Option<EffectMetadata>)
        requires
            self.wf(),
        ensures
            match r {
                Some(m) => self@.contains_key(name@) && self@[name@].metadata == m,
                None => !self@.contains_key(name@),
            },
    {
        match self.entries.get(name) {
            Some(entry) => Some(entry.metadata),
            None => None,
        }
    }

    /// Metadata of every registered effect, in name order.
    #[must_use]
    pub fn iter_metadata(&self) -> (r: Vec<EffectMetadata>)
        requires
            self.wf(),
        ensures
            r@.len() == self.listing().len(),
            forall|i: int|
                0 <= i < r@.len() ==> self@.contains_key(#[trigger] self.listing()[i]) && r@[i]
                    == self@[self.listing()[i]].metadata,
    {
        let mut out: Vec<EffectMetadata> = Vec::new();
        let mut i: usize = 0;
        while i < self.entries.len()
            invariant
                self.wf(),
                i <= self.entries.listing().len(),
                out@.len() == i,
                forall|k: int|
                    0 <= k < i ==> self@.contains_key(#[trigger] self.listing()[k]) && out@[k]
                        == self@[self.listing()[k]].metadata,
            decreases self.entries.listing().len() - i,
        {
            let entry = self.entries.at(i);
            out.push(entry.metadata);
            i = i + 1;
        }
        out
    }

    /// Sorted list of registered effect names.
    #[must_use]
    pub fn names(&self) -> (r: Vec<&'static str>)
        ensures
            r@.map_values(|s: &'static str| s@) == self.listing(),
    {
        self.entries.names()
    }

    /// Number of registered factories.
    #[must_use]
    pub fn len(&self) -> (r: usize)
        ensures
            r == self.listing().len(),
    {
        self.entries.len()
    }

    /// Whether no factory has been registered.
    #[must_use]
    pub fn is_empty(&self) -> (r: bool)
        ensures
            r == (self.listing().len() == 0),
    {
        self.entries.len() == 0
    }

    /// Whether a factory is registered under `name`.
    #[must_use]
    pub fn contains(&self, name: &str) -> (r: bool)
        requires
            self.wf(),
        ensures
            r == self@.contains_key(name@),
    {
        self.entries.get(name).is_some()
    }

    /// Whether a list of names may be built into `r`: one effect per name, or a
    /// complaint about the first unknown name.
    pub open spec fn may_build_chain(
        &self,
        names: Seq<String>,
        r: Result<Vec<NewEffect<E>>, EffectError>,
    ) -> bool {
        match r {
            Ok(chain) => {
                &&& chain@.len() == names.len()
                &&& forall|i: int|
                    0 <= i < names.len() ==> self@.contains_key((#[trigger] names[i])@)
                        && self@[names[i]@].factory.may_build(chain@[i])
            },
            Err(e) => exists|i: int|
                0 <= i < names.len() && !self@.contains_key((#[trigger] names[i])@) && unknown_name(
                    e,
                    self.holds(),
                    names[i]@,
                ) && forall|k: int| 0 <= k < i ==> self@.contains_key((#[trigger] names[k])@),
        }
    }

    /// Build a chain from a list of effect names; the first unknown name is
    /// refused.
    pub fn build_chain(&self, names: &[String]) -> (r: Result<Vec<NewEffect<E>>, EffectError>)
        requires
            self.wf(),
        ensures
            self.may_build_chain(names@, r),
    {
        let mut chain: Vec<NewEffect<E>> = Vec::new();
        let mut i: usize = 0;
        while i < names.len()
            invariant
                self.wf(),
                i <= names@.len(),
                chain@.len() == i,
                forall|k: int|
                    0 <= k < i ==> self@.contains_key((#[trigger] names@[k])@)
                        && self@[names@[k]@].factory.may_build(chain@[k]),
            decreases names@.len() - i,
        {
            match self.entries.get(names[i].as_str()) {
                Some(entry) => {
                    let made = entry.factory.build();
                    chain.push(made);
                },
                None => {
                    let mut reason = "unknown ".to_owned();
                    reason.append(self.kind);
                    reason.append(" effect: not registered");
                    let mut hint = "known names: see fluxframe_effects::".to_owned();
                    hint.append(self.kind);
                    hint.append("_effects");
                    return Err(
                        EffectError::invalid_config(names[i].as_str(), reason, Some(hint)),
                    );
                },
            }
            i = i + 1;
        }
        Ok(chain)
    }

    /// The names are listed once each, in ascending order.
    pub proof fn law_listing(&self)
        requires
            self.wf(),
        ensures
            forall|i: int, j: int|
                0 <= i < j < self.listing().len() ==> crate::text::precedes(
                    #[trigger] self.listing()[i],
                    #[trigger] self.listing()[j],
                ),
            forall|name: Seq<char>| #[trigger]
                self@.contains_key(name) <==> self.listing().contains(name),
    {
        self.entries.law_listing();
    }
}

/// What was registered under a name is what the name gives, and every other name gives
/// what it gave before.
pub proof fn law_register_then_get<E: ?Sized>(
    m: &mut EffectRegistry<E>,
    name: &'static str,
    entry: Entry<E>,
    key: &str,
    earlier: Option<&Entry<E>>,
    later: Option<&Entry<E>>,
)
    requires
        call_ensures(EffectRegistry::<E>::register, (m, name, entry), ()),
        call_ensures(EffectRegistry::<E>::get, (&*old(m), key), earlier),
    ensures
        call_ensures(EffectRegistry::<E>::get, (&*final(m), key), later) ==> (if key@ == name@ {
            later matches Some(v) && *v == entry
        } else {
            &&& later is Some <==> earlier is Some
            &&& later matches Some(v) ==> *v == *earlier->0
        }),
{
}

/// A chain has one effect for each name, in the order of the names, each from the
/// factory of its own name; it is refused exactly where a name is not registered.
pub proof fn law_chain_by_names<E: ?Sized>(
    m: &EffectRegistry<E>,
    names: &[String],
    r: Result<Vec<NewEffect<E>>, EffectError>,
)
    requires
        call_ensures(EffectRegistry::<E>::build_chain, (m, names), r),
    ensures
        r is Ok <==> forall|i: int|
            0 <= i < names@.len() ==> m@.contains_key((#[trigger] names@[i])@),
        r matches Ok(chain) ==> chain@.len() == names@.len() && forall|i: int|
            0 <= i < names@.len() ==> m@[(#[trigger] names@[i])@].factory.may_build(chain@[i]),
{
}

} // verus!
