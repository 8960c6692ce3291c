//! Builds a [`CompositeEffect`] from the sections of a preset.
//!
//! Every named effect is configured from its parameter table at once, so that a
//! malformed table is refused before the first frame.

use vstd::prelude::*;
use crate::composite::effect::CompositeEffect;
use crate::composite::segmentation::{
    self, SegmentationBase, SegmentationConfig, DEFAULT_FALLBACK_THRESHOLD,
};
use crate::composite::slots::{self, Slot, SubEffectAdapter};
use crate::config::PipelineSection;
use crate::context::EffectState;
use crate::error::EffectError;
use crate::mask_effects;
use crate::mask_effects::registry::{self as mask_registry, MaskEffectRegistry};
use crate::mask_effects::threshold::{self, ThresholdMaskEffect};
use crate::metadata::{self, EffectMetadata, ParamDescriptor, ParamKind};
use crate::params::{self, ParamModel, ParamTable, ParamValue, RawEffectParams};
use crate::paths::{self, ConfigBase};
use crate::pixel_math::PixelMath;
use crate::plane::{MaskCall, MaskEffect, PlaneEffect, PostEffect};
use crate::registry::{EffectRegistry, NewEffect};
use crate::text;
use crate::traits::{ModelLoader, VideoEffect};

verus! {

/// Makes plane effects.
pub type PlaneEffectRegistry = EffectRegistry<dyn PlaneEffect>;

/// Makes post effects.
pub type PostEffectRegistry = EffectRegistry<dyn PostEffect>;

// ---------------------------------------------------------------------------
// Table keys
// ---------------------------------------------------------------------------

/// Whether `key` is a control field of a section.
pub open spec fn reserved(key: Seq<char>) -> bool {
    key == "chain"@ || key == "model"@ || key == "model_config"@ || key == "fallback_threshold"@
}

/// Whether `names` has `name`.
pub open spec fn lists(names: Seq<String>, name: Seq<char>) -> bool {
    exists|i: int| 0 <= i < names.len() && (#[trigger] names[i])@ == name
}

impl PipelineSection {
    /// Whether `key` is a control field of a section.
    #[must_use]
    pub fn is_reserved_key(key: &str) -> (r: bool)
        ensures
            r == reserved(key@),
    {
        text::same(key, "chain") || text::same(key, "model") || text::same(key, "model_config")
            || text::same(key, "fallback_threshold")
    }

    /// Whether the table of key `i`, in name order, belongs to no effect of the
    /// chain.
    pub open spec fn stray(&self, i: int) -> bool {
        let key = self.per_effect.listing()[i];
        !reserved(key) && !lists(self.chain@, key)
    }

    /// Whether the tables define a control field of the mask section.
    pub open spec fn has_mask_field(&self) -> bool {
        self.per_effect@.contains_key("model"@) || self.per_effect@.contains_key(
            "fallback_threshold"@,
        )
    }
}

/// Whether `r` refuses the tables of section `name`, or accepts them: the first
/// table without an effect is refused, then a field of the mask section in
/// another section.
pub open spec fn keys_checked(
    section: &PipelineSection,
    name: Seq<char>,
    r: Result<(), EffectError>,
) -> bool {
    let n = section.per_effect.listing().len() as int;
    if exists|i: int| 0 <= i < n && #[trigger] section.stray(i) {
        exists|i: int|
            {
                &&& 0 <= i < n
                &&& #[trigger] section.stray(i)
                &&& forall|k: int| 0 <= k < i ==> !#[trigger] section.stray(k)
                &&& stray_refused(r, name, section.per_effect.listing()[i])
            }
    } else if name != "mask"@ && section.has_mask_field() {
        segmentation::refused(
            r,
            name,
            "["@ + name + "] cannot define `model` or `fallback_threshold` (mask section only)"@,
        )
    } else {
        r is Ok
    }
}

/// Whether `r` refuses the table `key` of section `name`.
pub open spec fn stray_refused(
    r: Result<(), EffectError>,
    name: Seq<char>,
    key: Seq<char>,
) -> bool {
    r matches Err(e) && (e matches EffectError::InvalidConfig { name: n, reason, hint } && n@ == name
        && reason@ == "["@ + name + "."@ + key + "] sub-table has no matching entry in ["@ + name
        + "].chain"@ && (hint matches Some(h) && h@
        == "add the effect to the `chain` list or remove the sub-table"@))
}

fn listed(names: &Vec<String>, name: &str) -> (r: bool)
    ensures
        r == lists(names@, name@),
{
    let mut i: usize = 0;
    while i < names.len()
        invariant
            i <= names@.len(),
            forall|k: int| 0 <= k < i ==> (#[trigger] names@[k])@ != name@,
        decreases names@.len() - i,
    {
        if text::same(names[i].as_str(), name) {
            return true;
        }
        i = i + 1;
    }
    false
}

/// Every table of a section belongs to an effect of its chain, and only the mask
/// section has a model.
fn reject_unknown_table_keys(section: &PipelineSection, section_name: &str) -> (r: Result<
    (),
    EffectError,
>)
    requires
        section.per_effect.wf(),
    ensures
        keys_checked(section, section_name@, r),
{
    let mut i: usize = 0;
    while i < section.per_effect.len()
        invariant
            i <= section.per_effect.listing().len(),
            forall|k: int| 0 <= k < i ==> !#[trigger] section.stray(k),
        decreases section.per_effect.listing().len() - i,
    {
        let key: &str = section.per_effect.name_at(i);
        if !PipelineSection::is_reserved_key(key) && !listed(&section.chain, key) {
            let mut reason = "[".to_owned();
            reason.append(section_name);
            reason.append(".");
            reason.append(key);
            reason.append("] sub-table has no matching entry in [");
            reason.append(section_name);
            reason.append("].chain");
            let hint = "add the effect to the `chain` list or remove the sub-table".to_owned();
            assert(section.stray(i as int));
            return Err(EffectError::invalid_config(section_name, reason, Some(hint)));
        }
        assert(!section.stray(i as int));
        i = i + 1;
    }
    if !text::same(section_name, "mask") && (section.per_effect.get("model").is_some()
        || section.per_effect.get("fallback_threshold").is_some()) {
        let mut reason = "[".to_owned();
        reason.append(section_name);
        reason.append("] cannot define `model` or `fallback_threshold` (mask section only)");
        return Err(EffectError::invalid_config(section_name, reason, None));
    }
    Ok(())
}

// ---------------------------------------------------------------------------
// Paths among the parameters
// ---------------------------------------------------------------------------

/// `table` with the field of a path parameter, where it is text, resolved
/// against `base`.
pub open spec fn path_based(
    table: Map<Seq<char>, ParamModel>,
    param: ParamDescriptor,
    base: Option<Seq<char>>,
) -> Map<Seq<char>, ParamModel> {
    let name = param.name@;
    if param.kind is Path && table.contains_key(name) && table[name] is Text {
        table.insert(name, ParamModel::Text(paths::resolved(base, table[name]->Text_0)))
    } else {
        table
    }
}

/// `table` with the fields of all path parameters resolved against `base`.
pub open spec fn paths_based(
    table: Map<Seq<char>, ParamModel>,
    list: Seq<ParamDescriptor>,
    base: Option<Seq<char>>,
) -> Map<Seq<char>, ParamModel>
    decreases list.len(),
{
    if list.len() == 0 {
        table
    } else {
        path_based(paths_based(table, list.drop_last(), base), list.last(), base)
    }
}

/// Resolve the fields of path parameters against `base`.
fn resolve_paths(table: ParamTable, meta: &EffectMetadata, base: &ConfigBase) -> (r: ParamTable)
    ensures
        params::entries(r) == paths_based(params::entries(table), meta.params@, base@),
{
    let mut out = table;
    let ghost start = params::entries(table);
    let mut i: usize = 0;
    let list = meta.params;
    proof {
        assert(list@.take(0) =~= Seq::empty());
    }
    while i < list.len()
        invariant
            i <= list@.len(),
            list@ == meta.params@,
            params::entries(out) == paths_based(start, list@.take(i as int), base@),
        decreases list@.len() - i,
    {
        let ghost before = params::entries(out);
        let param = list[i];
        if let ParamKind::Path { .. } = param.kind {
            match params::table_remove(&mut out, param.name) {
                None => {
                    assert(before.remove(param.name@) =~= before);
                },
                Some(value) => {
                    let ghost model = value@;
                    let kept = match value {
                        ParamValue::Text(p) => {
                            let resolved = base.resolve(p.as_str());
                            ParamValue::Text(resolved.as_str().to_owned())
                        },
                        other => other,
                    };
                    params::table_insert(&mut out, param.name.to_owned(), kept);
                    assert(before.remove(param.name@).insert(param.name@, kept@) =~= before.insert(
                        param.name@,
                        kept@,
                    ));
                    assert(before.insert(param.name@, model) =~= before);
                },
            }
        }
        proof {
            let next = list@.take(i + 1);
            assert(next.drop_last() =~= list@.take(i as int));
            assert(next.last() == param);
            assert(params::entries(out) =~= path_based(before, param, base@));
        }
        i = i + 1;
    }
    proof {
        assert(list@.take(i as int) =~= list@);
    }
    out
}

// ---------------------------------------------------------------------------
// Configuring a chain
// ---------------------------------------------------------------------------

/// The table that a section has for `name`.
pub open spec fn section_table(section: &PipelineSection, name: Seq<char>) -> metadata::TableModel {
    if section.per_effect@.contains_key(name) {
        match section.per_effect@[name]@ {
            ParamModel::Table(list) => metadata::TableModel::Table(params::table_entries(list)),
            other => metadata::TableModel::Other(other.kind_text()),
        }
    } else {
        metadata::TableModel::Absent
    }
}

/// The flag and the parameters that a section gives effect `name`, which is
/// described by `meta`.
pub open spec fn given(
    section: &PipelineSection,
    name: Seq<char>,
    meta: EffectMetadata,
    base: Option<Seq<char>>,
) -> Result<(bool, Map<Seq<char>, ParamModel>), metadata::Complaint> {
    match metadata::resolve_model(name, section_table(section, name), Some(&meta)) {
        Ok((enabled, table)) => Ok((enabled, paths_based(table, meta.params@, base))),
        Err(c) => Err(c),
    }
}

/// Whether `made` may be configured with `params` to the outcome `r` and hold
/// `after` then.
pub open spec fn taken<E: ?Sized + SubEffectAdapter>(
    made: NewEffect<E>,
    params: RawEffectParams,
    after: EffectState,
    r: Result<(), EffectError>,
) -> bool {
    (made.effect.rulebook().configure)(made.effect.keeps(), params, after, r)
}

/// Whether `made` may be configured with `table` to the outcome `r` and hold
/// `after` then.
pub open spec fn may_take<E: ?Sized + SubEffectAdapter>(
    made: NewEffect<E>,
    table: Map<Seq<char>, ParamModel>,
    after: EffectState,
    r: Result<(), EffectError>,
) -> bool {
    exists|p: RawEffectParams|
        p.table() == Some(table) && #[trigger] taken(made, p, after, r)
}

/// Whether slot `i` may come out of configuring effect `i` with its own table.
pub open spec fn slot_made<E: ?Sized + SubEffectAdapter>(
    section: &PipelineSection,
    registry: &EffectRegistry<E>,
    base: Option<Seq<char>>,
    made: Seq<NewEffect<E>>,
    out: Seq<Slot<E>>,
    i: int,
) -> bool {
    let name = section.chain@[i]@;
    given(section, name, registry@[name].metadata, base) matches Ok((enabled, table)) && may_take(
        made[i],
        table,
        out[i].held().keeps(),
        Ok(()),
    ) && out[i].on() == enabled && out[i].held().rulebook()
        == made[i].effect.rulebook()
}

/// Whether effect `i` may be the one that is refused.
pub open spec fn refused_at<E: ?Sized + SubEffectAdapter>(
    section: &PipelineSection,
    registry: &EffectRegistry<E>,
    base: Option<Seq<char>>,
    made: Seq<NewEffect<E>>,
    i: int,
    e: EffectError,
) -> bool {
    let name = section.chain@[i]@;
    match given(section, name, registry@[name].metadata, base) {
        Ok((_, table)) => exists|after: EffectState| #[trigger]
            may_take(made[i], table, after, Err(e)),
        Err(c) => metadata::refuses(e, name, c),
    }
}

/// Whether effect `i` may be accepted.
pub open spec fn accepted_at<E: ?Sized + SubEffectAdapter>(
    section: &PipelineSection,
    registry: &EffectRegistry<E>,
    base: Option<Seq<char>>,
    made: Seq<NewEffect<E>>,
    i: int,
) -> bool {
    let name = section.chain@[i]@;
    given(section, name, registry@[name].metadata, base) matches Ok((_, table)) && exists|
        after: EffectState,
    | #[trigger] may_take(made[i], table, after, Ok(()))
}

/// Whether configuring the effects `made` for a section may end in `r`.
pub open spec fn configured<E: ?Sized + SubEffectAdapter>(
    section: &PipelineSection,
    registry: &EffectRegistry<E>,
    base: Option<Seq<char>>,
    made: Seq<NewEffect<E>>,
    r: Result<Vec<Slot<E>>, EffectError>,
) -> bool {
    match r {
        Ok(out) => {
            &&& out@.len() == made.len()
            &&& forall|i: int|
                0 <= i < made.len() ==> #[trigger] slot_made(
                    section,
                    registry,
                    base,
                    made,
                    out@,
                    i,
                )
        },
        Err(e) => exists|i: int|
            {
                &&& 0 <= i < made.len()
                &&& #[trigger] refused_at(section, registry, base, made, i, e)
                &&& forall|k: int|
                    0 <= k < i ==> #[trigger] accepted_at(section, registry, base, made, k)
            },
    }
}

/// The parameters of one effect.
fn params_for(
    section: &PipelineSection,
    name: &str,
    meta: &EffectMetadata,
    base: &ConfigBase,
) -> (r: Result<(bool, ParamTable), EffectError>)
    requires
        section.per_effect.wf(),
    ensures
        match r {
            Ok((enabled, table)) => given(section, name@, *meta, base@) == Ok::<
                (bool, Map<Seq<char>, ParamModel>),
                metadata::Complaint,
            >((enabled, params::entries(table))),
            Err(e) => given(section, name@, *meta, base@) is Err && metadata::refuses(
                e,
                name@,
                given(section, name@, *meta, base@)->Err_0,
            ),
        },
{
    let raw = match section.per_effect.get(name) {
        Some(value) => Some(RawEffectParams::of_value(Some(value))),
        None => None,
    };
    let table: Option<&RawEffectParams> = match &raw {
        Some(p) => Some(p),
        None => None,
    };
    assert(metadata::table_model(table) == section_table(section, name@));
    match metadata::resolve_effect_params(name, table, Some(meta)) {
        Ok(resolved) => match resolved.params {
            RawEffectParams::Table(t) => Ok((resolved.enabled, resolve_paths(t, meta, base))),
            RawEffectParams::Value(_) => vstd::pervasive::unreached(),
        },
        Err(e) => Err(e),
    }
}

/// Configure the effects of a section, in order, and pair each with its flag.
fn configure_chain<E: ?Sized + SubEffectAdapter>(
    chain: Vec<NewEffect<E>>,
    section: &PipelineSection,
    registry: &EffectRegistry<E>,
    base: &ConfigBase,
) -> (r: Result<Vec<Slot<E>>, EffectError>)
    requires
        section.per_effect.wf(),
        registry.wf(),
        chain@.len() == section.chain@.len(),
        forall|i: int|
            0 <= i < section.chain@.len() ==> registry@.contains_key(
                (#[trigger] section.chain@[i])@,
            ),
    ensures
        configured(section, registry, base@, chain@, r),
{
    let ghost made = chain@;
    let mut rest = chain;
    let mut out: Vec<Slot<E>> = Vec::new();
    let mut i: usize = 0;
    proof {
        assert(made.skip(0) =~= made);
    }
    while i < section.chain.len()
        invariant
            section.per_effect.wf(),
            registry.wf(),
            made == chain@,
            made.len() == section.chain@.len(),
            i <= made.len(),
            out@.len() == i,
            rest@ == made.skip(i as int),
            forall|k: int|
                0 <= k < section.chain@.len() ==> registry@.contains_key(
                    (#[trigger] section.chain@[k])@,
                ),
            forall|k: int|
                0 <= k < i ==> #[trigger] slot_made(section, registry, base@, made, out@, k),
            forall|k: int| 0 <= k < i ==> #[trigger] accepted_at(section, registry, base@, made, k),
        decreases made.len() - i,
    {
        let name: &str = section.chain[i].as_str();
        let ghost before = out@;
        let mut item = rest.remove(0);
        assert(item == made[i as int]);
        assert(rest@ =~= made.skip(i + 1));
        let meta = match registry.metadata(name) {
            Some(m) => m,
            None => vstd::pervasive::unreached(),
        };
        match params_for(section, name, &meta, base) {
            Err(e) => {
                assert(refused_at(section, registry, base@, made, i as int, e));
                return Err(e);
            },
            Ok((enabled, table)) => {
                let ghost entries = params::entries(table);
                let given_params = RawEffectParams::Table(table);
                let ghost p = given_params;
                let q = item.effect.configure_mut(given_params);
                assert(p.table() == Some(entries));
                let ghost held = item.effect.keeps();
                assert(taken(made[i as int], p, held, q));
                let ghost own = given(
                    section,
                    section.chain@[i as int]@,
                    registry@[section.chain@[i as int]@].metadata,
                    base@,
                )->Ok_0.1;
                assert(own == entries);
                assert(may_take(made[i as int], own, held, q));
                assert(q is Ok ==> q->Ok_0 == ());
                match q {
                    Err(e) => {
                        assert(may_take(made[i as int], own, held, Err(e)));
                        assert(refused_at(section, registry, base@, made, i as int, e));
                        return Err(e);
                    },
                    Ok(()) => {},
                }
                assert(q == Ok::<(), EffectError>(()));
                assert(may_take(made[i as int], own, held, Ok(())));
                out.push(Slot::new(item.effect, enabled));
            },
        }
        proof {
            assert(accepted_at(section, registry, base@, made, i as int));
            assert(slot_made(section, registry, base@, made, out@, i as int));
            assert forall|k: int| 0 <= k < i implies #[trigger] slot_made(
                section,
                registry,
                base@,
                made,
                out@,
                k,
            ) by {
                assert(slot_made(section, registry, base@, made, before, k));
                assert(out@[k] == before[k]);
            }
        }
        i = i + 1;
    }
    Ok(out)
}

/// Whether building the chain of section `name` may end in `r`.
pub open spec fn section_built<E: ?Sized + SubEffectAdapter>(
    registry: &EffectRegistry<E>,
    section: &PipelineSection,
    name: Seq<char>,
    base: Option<Seq<char>>,
    r: Result<Vec<Slot<E>>, EffectError>,
) -> bool {
    exists|keys: Result<(), EffectError>| #[trigger]
        keys_checked(section, name, keys) && match keys {
            Err(e) => r == Err::<Vec<Slot<E>>, EffectError>(e),
            Ok(_) => exists|made: Result<Vec<NewEffect<E>>, EffectError>| #[trigger]
                registry.may_build_chain(section.chain@, made) && match made {
                    Err(e) => r == Err::<Vec<Slot<E>>, EffectError>(e),
                    Ok(chain) => configured(section, registry, base, chain@, r),
                },
        }
}

/// Whether a section may be accepted.
pub open spec fn section_accepted<E: ?Sized + SubEffectAdapter>(
    registry: &EffectRegistry<E>,
    section: &PipelineSection,
    name: Seq<char>,
    base: Option<Seq<char>>,
) -> bool {
    exists|v: Vec<Slot<E>>| #[trigger] section_built(registry, section, name, base, Ok(v))
}

/// Build the chain of a section.
fn build_chain<E: ?Sized + SubEffectAdapter>(
    registry: &EffectRegistry<E>,
    section: &PipelineSection,
    section_name: &str,
    base: &ConfigBase,
) -> (r: Result<Vec<Slot<E>>, EffectError>)
    requires
        section.per_effect.wf(),
        registry.wf(),
    ensures
        section_built(registry, section, section_name@, base@, r),
{
    let keys = reject_unknown_table_keys(section, section_name);
    assert(keys_checked(section, section_name@, keys));
    match keys {
        Err(e) => {
            return Err(e);
        },
        Ok(()) => {},
    }
    let made = registry.build_chain(section.chain.as_slice());
    assert(registry.may_build_chain(section.chain@, made));
    match made {
        Err(e) => Err(e),
        Ok(chain) => configure_chain(chain, section, registry, base),
    }
}

/// Build the mask chain.
pub fn build_mask_chain(
    registry: &MaskEffectRegistry,
    section: &PipelineSection,
    base: &ConfigBase,
) -> (r: Result<Vec<Slot<dyn MaskEffect>>, EffectError>)
    requires
        section.per_effect.wf(),
        registry.wf(),
    ensures
        section_built(registry.generic(), section, "mask"@, base@, r),
{
    build_chain(registry.as_registry(), section, "mask", base)
}

/// Build the background or foreground chain.
pub fn build_plane_chain(
    registry: &PlaneEffectRegistry,
    section: &PipelineSection,
    section_name: &str,
    base: &ConfigBase,
) -> (r: Result<Vec<Slot<dyn PlaneEffect>>, EffectError>)
    requires
        section.per_effect.wf(),
        registry.wf(),
    ensures
        section_built(registry, section, section_name@, base@, r),
{
    build_chain(registry, section, section_name, base)
}

/// Build the post chain.
pub fn build_post_chain(
    registry: &PostEffectRegistry,
    section: &PipelineSection,
    base: &ConfigBase,
) -> (r: Result<Vec<Slot<dyn PostEffect>>, EffectError>)
    requires
        section.per_effect.wf(),
        registry.wf(),
    ensures
        section_built(registry, section, "post"@, base@, r),
{
    build_chain(registry, section, "post", base)
}

/// A built effect runs under the parameters of its own table: from a state that
/// the table leads a new effect to, under the new effect's rules.
pub proof fn law_runs_under_own_table<E: ?Sized + SubEffectAdapter>(
    section: &PipelineSection,
    registry: &EffectRegistry<E>,
    base: Option<Seq<char>>,
    made: Seq<NewEffect<E>>,
    out: Seq<Slot<E>>,
    again: Seq<Slot<E>>,
    i: int,
    call: E::Call,
    q: Result<(), EffectError>,
)
    requires
        slot_made(section, registry, base, made, out, i),
        slots::runs_at(out, again, i, call, q),
    ensures
        ({
            let name = section.chain@[i]@;
            given(section, name, registry@[name].metadata, base) matches Ok((_, table))
                && may_take(made[i], table, slots::state_at(out, i), Ok(()))
                && (made[i].effect.rulebook().process)(
                slots::state_at(out, i),
                call,
                slots::state_at(again, i),
                q,
            )
        }),
{
}

/// A threshold effect whose table gives a level binarises masks at that level.
pub proof fn law_threshold_level_takes_effect(
    section: &PipelineSection,
    registry: &EffectRegistry<dyn MaskEffect>,
    base: Option<Seq<char>>,
    made: Seq<NewEffect<dyn MaskEffect>>,
    out: Seq<Slot<dyn MaskEffect>>,
    again: Seq<Slot<dyn MaskEffect>>,
    i: int,
    call: MaskCall,
    q: Result<(), EffectError>,
    w: ThresholdMaskEffect,
    level: u32,
)
    requires
        slot_made(section, registry, base, made, out, i),
        mask_registry::acts_as(made[i], w),
        slots::runs_at(out, again, i, call, q),
        ({
            let name = section.chain@[i]@;
            given(section, name, registry@[name].metadata, base) matches Ok((_, table)) && forall|
                p: RawEffectParams,
            | #[trigger]
                p.table() == Some(table) ==> mask_effects::unit_field(
                    p,
                    "level"@,
                    threshold::DEFAULT_LEVEL,
                ) == Ok::<u32, Seq<char>>(level)
        }),
    ensures
        q is Ok,
        call.mask_after == threshold::binarised(call.mask, level),
{
    let name = section.chain@[i]@;
    let table = given(section, name, registry@[name].metadata, base)->Ok_0.1;
    let held = slots::state_at(out, i);
    let p = choose|p: RawEffectParams|
        p.table() == Some(table) && #[trigger] taken(made[i], p, held, Ok(()));
    assert(held.settings =~= seq![level]);
    assert(threshold::ran(held, call, slots::state_at(again, i), q));
}

// ---------------------------------------------------------------------------
// Segmentation
// ---------------------------------------------------------------------------

/// Why the mask section is refused as a source of a model, if it is.
pub open spec fn model_defect(section: &PipelineSection, base: Option<Seq<char>>) -> Option<Seq<char>> {
    let model = paths::resolved(base, section.model->0@);
    segmentation::config_defect(model, paths::path_extension(model), threshold_of(section))
}

/// The failure threshold of a section.
pub open spec fn threshold_of(section: &PipelineSection) -> u32 {
    match section.fallback_threshold {
        Some(n) => n,
        None => DEFAULT_FALLBACK_THRESHOLD,
    }
}

/// Whether `e` reports that the mask section has no model.
pub open spec fn no_model(e: EffectError) -> bool {
    e matches EffectError::InvalidConfig { name, reason, hint } && name@ == "mask"@ && reason@
        == "`mask.model` is required (path to the segmentation ONNX file)"@ && (hint matches Some(h)
        && h@ == "e.g. model = \"./models/selfie_segmentation.onnx\""@)
}

/// Whether the mask section gives a model.
pub open spec fn stage_accepted(section: &PipelineSection, base: Option<Seq<char>>) -> bool {
    section.model is Some && model_defect(section, base) is None
}

/// Whether `e` refuses the mask section as a source of a model.
pub open spec fn stage_refused(
    section: &PipelineSection,
    base: Option<Seq<char>>,
    e: EffectError,
) -> bool {
    if section.model is None {
        no_model(e)
    } else {
        segmentation::refused(
            Err::<(), EffectError>(e),
            segmentation::SEGMENTATION@,
            model_defect(section, base)->0,
        )
    }
}

/// Whether building the segmentation stage may end in `r`.
pub open spec fn stage_built<M: PixelMath, L: ModelLoader>(
    section: &PipelineSection,
    base: Option<Seq<char>>,
    math: M,
    loader: L,
    r: Result<SegmentationBase<M, L>, EffectError>,
) -> bool {
    match r {
        Err(e) => !stage_accepted(section, base) && stage_refused(section, base, e),
        Ok(stage) => {
            &&& stage_accepted(section, base)
            &&& stage.wf()
            &&& stage@.model == paths::resolved(base, section.model->0@)
            &&& stage@.sidecar == (match section.model_config {
                Some(path) => Some(paths::resolved(base, path@)),
                None => None,
            })
            &&& stage@.threshold == threshold_of(section)
            &&& stage@.defect is None
            &&& stage@.model_config is None
            &&& stage@.engine is None
            &&& stage@.failures == 0
            &&& *stage.pixel_math() == math
            &&& *stage.source() == loader
        },
    }
}

/// Build the segmentation stage from the mask section.
pub fn build_segmentation<M: PixelMath, L: ModelLoader>(
    section: &PipelineSection,
    base: &ConfigBase,
    math: M,
    loader: L,
) -> (r: Result<SegmentationBase<M, L>, EffectError>)
    ensures
        stage_built(section, base@, math, loader, r),
{
    let model: &String = match &section.model {
        Some(m) => m,
        None => {
            let reason =
                "`mask.model` is required (path to the segmentation ONNX file)".to_owned();
            let hint = "e.g. model = \"./models/selfie_segmentation.onnx\"".to_owned();
            return Err(EffectError::invalid_config("mask", reason, Some(hint)));
        },
    };
    let model_config = match &section.model_config {
        Some(p) => {
            let resolved = base.resolve(p.as_str());
            Some(resolved.as_str().to_owned())
        },
        None => None,
    };
    let fallback_threshold: u32 = match section.fallback_threshold {
        Some(n) => n,
        None => DEFAULT_FALLBACK_THRESHOLD,
    };
    let resolved = base.resolve(model.as_str());
    let config = SegmentationConfig {
        model: resolved.as_str().to_owned(),
        model_config,
        fallback_threshold,
    };
    match config.validate() {
        Ok(()) => Ok(SegmentationBase::new(config, math, loader)),
        Err(e) => Err(e),
    }
}

// ---------------------------------------------------------------------------
// The whole
// ---------------------------------------------------------------------------

/// Builds composite effects from registries of effects.
pub struct CompositeBuilder<'a> {
    mask: &'a MaskEffectRegistry,
    plane: &'a PlaneEffectRegistry,
    post: &'a PostEffectRegistry,
}

/// Whether building the chain of an optional section may end in `r`: an absent
/// one is empty.
pub open spec fn optional_built<E: ?Sized + SubEffectAdapter>(
    registry: &EffectRegistry<E>,
    section: Option<&PipelineSection>,
    name: Seq<char>,
    base: Option<Seq<char>>,
    r: Result<Vec<Slot<E>>, EffectError>,
) -> bool {
    match section {
        Some(s) => section_built(registry, s, name, base, r),
        None => r matches Ok(chain) && chain@.len() == 0,
    }
}

/// Whether an optional section may be accepted.
pub open spec fn optional_accepted<E: ?Sized + SubEffectAdapter>(
    registry: &EffectRegistry<E>,
    section: Option<&PipelineSection>,
    name: Seq<char>,
    base: Option<Seq<char>>,
) -> bool {
    exists|v: Vec<Slot<E>>| #[trigger] optional_built(registry, section, name, base, Ok(v))
}

fn build_optional<E: ?Sized + SubEffectAdapter>(
    registry: &EffectRegistry<E>,
    section: Option<&PipelineSection>,
    section_name: &str,
    base: &ConfigBase,
) -> (r: Result<Vec<Slot<E>>, EffectError>)
    requires
        section matches Some(s) ==> s.per_effect.wf(),
        registry.wf(),
    ensures
        optional_built(registry, section, section_name@, base@, r),
{
    match section {
        Some(s) => build_chain(registry, s, section_name, base),
        None => Ok(Vec::new()),
    }
}

impl<'a> CompositeBuilder<'a> {
    /// Whether the registries are well-formed.
    pub closed spec fn wf(&self) -> bool {
        self.mask.wf() && self.plane.wf() && self.post.wf()
    }

    /// The registry of mask effects.
    pub closed spec fn masks(&self) -> &MaskEffectRegistry {
        self.mask
    }

    /// The registry of plane effects.
    pub closed spec fn planes(&self) -> &PlaneEffectRegistry {
        self.plane
    }

    /// The registry of post effects.
    pub closed spec fn posts(&self) -> &PostEffectRegistry {
        self.post
    }

    /// Whether `e` may be the first refusal.
    pub open spec fn refusal(
        &self,
        mask: &PipelineSection,
        background: Option<&PipelineSection>,
        foreground: Option<&PipelineSection>,
        post: Option<&PipelineSection>,
        base: Option<Seq<char>>,
        e: EffectError,
    ) -> bool {
        if !stage_accepted(mask, base) {
            stage_refused(mask, base, e)
        } else {
            ||| section_built(self.masks().generic(), mask, "mask"@, base, Err(e))
            ||| {
                &&& section_accepted(self.masks().generic(), mask, "mask"@, base)
                &&& {
                    ||| optional_built(self.planes(), background, "background"@, base, Err(e))
                    ||| {
                        &&& optional_accepted(self.planes(), background, "background"@, base)
                        &&& {
                            ||| optional_built(
                                self.planes(),
                                foreground,
                                "foreground"@,
                                base,
                                Err(e),
                            )
                            ||| {
                                &&& optional_accepted(
                                    self.planes(),
                                    foreground,
                                    "foreground"@,
                                    base,
                                )
                                &&& optional_built(self.posts(), post, "post"@, base, Err(e))
                            }
                        }
                    }
                }
            }
        }
    }

    /// Construct from registries.
    #[must_use]
    pub fn new(
        mask: &'a MaskEffectRegistry,
        plane: &'a PlaneEffectRegistry,
        post: &'a PostEffectRegistry,
    ) -> (r: Self)
        requires
            mask.wf(),
            plane.wf(),
            post.wf(),
        ensures
            r.wf(),
            r.masks() == mask,
            r.planes() == plane,
            r.posts() == post,
    {
        CompositeBuilder { mask, plane, post }
    }

    /// Assemble the composite effect.  An absent section is an empty chain, and
    /// relative paths are resolved against `base`.  The stages are built in the
    /// order segmentation, mask, background, foreground, post; the first refusal
    /// is returned.
    pub fn build<M: PixelMath, L: ModelLoader>(
        &self,
        mask: &PipelineSection,
        background: Option<&PipelineSection>,
        foreground: Option<&PipelineSection>,
        post: Option<&PipelineSection>,
        base: &ConfigBase,
        math: M,
        loader: L,
    ) -> (r: Result<CompositeEffect<M, L>, EffectError>)
        requires
            self.wf(),
            mask.per_effect.wf(),
            background matches Some(s) ==> s.per_effect.wf(),
            foreground matches Some(s) ==> s.per_effect.wf(),
            post matches Some(s) ==> s.per_effect.wf(),
        ensures
            match r {
                Ok(c) => {
                    &&& c.wf()
                    &&& c.stored() is None
                    &&& c.width() == 0 && c.height() == 0
                    &&& stage_built(mask, base@, math, loader, Ok(c.stage()))
                    &&& exists|v: Vec<Slot<dyn MaskEffect>>|
                        c.masks() == v@ && #[trigger] section_built(
                            self.masks().generic(),
                            mask,
                            "mask"@,
                            base@,
                            Ok(v),
                        )
                    &&& exists|v: Vec<Slot<dyn PlaneEffect>>|
                        c.backs() == v@ && #[trigger] optional_built(
                            self.planes(),
                            background,
                            "background"@,
                            base@,
                            Ok(v),
                        )
                    &&& exists|v: Vec<Slot<dyn PlaneEffect>>|
                        c.fronts() == v@ && #[trigger] optional_built(
                            self.planes(),
                            foreground,
                            "foreground"@,
                            base@,
                            Ok(v),
                        )
                    &&& exists|v: Vec<Slot<dyn PostEffect>>|
                        c.posts() == v@ && #[trigger] optional_built(
                            self.posts(),
                            post,
                            "post"@,
                            base@,
                            Ok(v),
                        )
                },
                Err(e) => self.refusal(mask, background, foreground, post, base@, e),
            },
    {
        let stage = match build_segmentation(mask, base, math, loader) {
            Ok(s) => s,
            Err(e) => {
                return Err(e);
            },
        };
        let mask_chain = match build_mask_chain(self.mask, mask, base) {
            Ok(v) => v,
            Err(e) => {
                return Err(e);
            },
        };
        assert(section_built(self.masks().generic(), mask, "mask"@, base@, Ok(mask_chain)));
        let bg_chain = match build_optional(self.plane, background, "background", base) {
            Ok(v) => v,
            Err(e) => {
                return Err(e);
            },
        };
        assert(optional_built(self.planes(), background, "background"@, base@, Ok(bg_chain)));
        let fg_chain = match build_optional(self.plane, foreground, "foreground", base) {
            Ok(v) => v,
            Err(e) => {
                return Err(e);
            },
        };
        assert(optional_built(self.planes(), foreground, "foreground"@, base@, Ok(fg_chain)));
        let post_chain = match build_optional(self.post, post, "post", base) {
            Ok(v) => v,
            Err(e) => {
                return Err(e);
            },
        };
        assert(optional_built(self.posts(), post, "post"@, base@, Ok(post_chain)));
        let c = CompositeEffect::new(stage, mask_chain, bg_chain, fg_chain, post_chain);
        assert(stage_built(mask, base@, math, loader, Ok(c.stage())));
        Ok(c)
    }
}

} // verus!
