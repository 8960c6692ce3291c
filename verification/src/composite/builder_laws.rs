//! What a composite effect is made of when it is built from the sections of a preset.

use vstd::prelude::*;
use crate::composite::builder;
use crate::composite::builder::CompositeBuilder;
use crate::composite::effect::CompositeEffect;
use crate::composite::segmentation::SegmentationConfig;
use crate::composite::slots::{Slot, SubEffectAdapter};
use crate::config::PipelineSection;
use crate::error::EffectError;
use crate::metadata;
use crate::metadata::ParamDescriptor;
use crate::params;
use crate::params::{ParamModel, ParamTable, RawEffectParams};
use crate::paths;
use crate::paths::ConfigBase;
use crate::pixel_math::PixelMath;
use crate::plane::{MaskEffect, PlaneEffect, PostEffect};
use crate::registry::{EffectRegistry, NewEffect};
use crate::text;
use crate::traits::ModelLoader;

verus! {

/// Whether an effect takes a path under a name.
pub open spec fn takes_path(list: Seq<ParamDescriptor>, key: Seq<char>) -> bool {
    exists|i: int| 0 <= i < list.len() && (#[trigger] list[i]).kind is Path && list[i].name@ == key
}

/// Whether no two parameters have one name.
pub open spec fn distinct_names(list: Seq<ParamDescriptor>) -> bool {
    forall|i: int, j: int|
        0 <= i < j < list.len() ==> (#[trigger] list[i]).name@ != (#[trigger] list[j]).name@
}

/// Basing the paths of a table touches the text of paths and nothing else.
proof fn lemma_based(
    table: Map<Seq<char>, ParamModel>,
    list: Seq<ParamDescriptor>,
    base: Option<Seq<char>>,
    key: Seq<char>,
)
    ensures
        builder::paths_based(table, list, base).contains_key(key) <==> table.contains_key(key),
        table.contains_key(key) && (!takes_path(list, key) || !(table[key] is Text))
            ==> builder::paths_based(table, list, base)[key] == table[key],
        table.contains_key(key) && takes_path(list, key) && table[key] is Text && distinct_names(
            list,
        ) ==> builder::paths_based(table, list, base)[key] == ParamModel::Text(
            paths::resolved(base, table[key]->Text_0),
        ),
        table.contains_key(key) && table[key] is Text ==> builder::paths_based(table, list, base)[key]
            is Text,
    decreases list.len(),
{
    if list.len() > 0 {
        let fewer = list.drop_last();
        lemma_based(table, fewer, base, key);
        let last = list.len() - 1;
        if takes_path(fewer, key) {
            let i = choose|i: int|
                0 <= i < fewer.len() && (#[trigger] fewer[i]).kind is Path && fewer[i].name@ == key;
            assert(list[i] == fewer[i]);
            if distinct_names(list) {
                assert(list[i].name@ != list[last].name@);
            }
        }
        if list[last].kind is Path && list[last].name@ == key {
            assert(takes_path(list, key));
            if distinct_names(list) && takes_path(fewer, key) {
                assert(false);
            }
        } else if takes_path(list, key) {
            let i = choose|i: int|
                0 <= i < list.len() && (#[trigger] list[i]).kind is Path && list[i].name@ == key;
            assert(fewer[i] == list[i]);
        }
        if distinct_names(list) {
            assert forall|i: int, j: int| 0 <= i < j < fewer.len() implies (
            #[trigger] fewer[i]).name@ != (#[trigger] fewer[j]).name@ by {
                assert(list[i].name@ != list[j].name@);
            }
        }
    }
}

/// Whether a table is another one with its paths based: the same keys, and the same
/// values but for the text of paths.
pub open spec fn with_based_paths(
    given: Map<Seq<char>, ParamModel>,
    list: Seq<ParamDescriptor>,
    base: Option<Seq<char>>,
    table: Map<Seq<char>, ParamModel>,
) -> bool {
    forall|k: Seq<char>| #[trigger] based_at(given, list, base, table, k)
}

/// Whether the value under `k` is the given one, or the given path based.
pub open spec fn based_at(
    given: Map<Seq<char>, ParamModel>,
    list: Seq<ParamDescriptor>,
    base: Option<Seq<char>>,
    table: Map<Seq<char>, ParamModel>,
    k: Seq<char>,
) -> bool {
    &&& table.contains_key(k) <==> given.contains_key(k)
    &&& given.contains_key(k) && (!takes_path(list, k) || !(given[k] is Text)) ==> table[k]
        == given[k]
    &&& given.contains_key(k) && takes_path(list, k) && given[k] is Text && distinct_names(list)
        ==> table[k] == ParamModel::Text(paths::resolved(base, given[k]->Text_0))
}

/// The entries that a section has for a name, other than the flag.
pub open spec fn own_entries(section: &PipelineSection, name: Seq<char>) -> Map<
    Seq<char>,
    ParamModel,
> {
    if section.per_effect@.contains_key(name) {
        match section.per_effect@[name]@ {
            ParamModel::Table(list) => params::table_entries(list).remove("enabled"@),
            _ => Map::empty(),
        }
    } else {
        Map::empty()
    }
}

/// Whether a section switches an effect off.
pub open spec fn switched_off(section: &PipelineSection, name: Seq<char>) -> bool {
    &&& section.per_effect@.contains_key(name)
    &&& section.per_effect@[name]@ matches ParamModel::Table(list)
        && params::table_entries(list).contains_key("enabled"@) && params::table_entries(
        list,
    )["enabled"@] == ParamModel::Boolean(false)
}

/// Whether a slot holds a fresh effect of the registry, configured with `p`.
pub open spec fn slot_from<E: ?Sized + SubEffectAdapter>(
    registry: &EffectRegistry<E>,
    name: Seq<char>,
    slot: Slot<E>,
    made: NewEffect<E>,
    p: RawEffectParams,
) -> bool {
    &&& registry@.contains_key(name)
    &&& registry@[name].factory.may_build(made)
    &&& slot.held().rulebook() == made.effect.rulebook()
    &&& (made.effect.rulebook().configure)(made.effect.keeps(), p, slot.held().keeps(), Ok(()))
}

/// Whether slot `i` of a chain is the effect that the section names there, under the
/// entries that the section has for that name, or the defaults of the effect where it
/// has none, with its paths based; it runs unless the section switches it off.
pub open spec fn slot_of_section<E: ?Sized + SubEffectAdapter>(
    registry: &EffectRegistry<E>,
    section: &PipelineSection,
    base: Option<Seq<char>>,
    chain: Seq<Slot<E>>,
    i: int,
) -> bool {
    let name = section.chain@[i]@;
    let list = registry@[name].metadata.params@;
    exists|made: NewEffect<E>, p: RawEffectParams|
        {
            &&& #[trigger] slot_from(registry, name, chain[i], made, p)
            &&& p.table() is Some
            &&& own_entries(section, name) != Map::<Seq<char>, ParamModel>::empty()
                ==> with_based_paths(own_entries(section, name), list, base, p.table()->0)
            &&& own_entries(section, name) == Map::<Seq<char>, ParamModel>::empty()
                ==> with_based_paths(metadata::default_entries(list), list, base, p.table()->0)
            &&& chain[i].on() <==> !switched_off(section, name)
        }
}

/// Whether a chain follows a section: one slot for each name, in order.
pub open spec fn chain_of_section<E: ?Sized + SubEffectAdapter>(
    registry: &EffectRegistry<E>,
    section: &PipelineSection,
    base: Option<Seq<char>>,
    chain: Seq<Slot<E>>,
) -> bool {
    &&& chain.len() == section.chain@.len()
    &&& forall|i: int|
        0 <= i < chain.len() ==> #[trigger] slot_of_section(registry, section, base, chain, i)
}

/// A section that is built gives the chain that follows it.
proof fn lemma_chain_of_section<E: ?Sized + SubEffectAdapter>(
    registry: &EffectRegistry<E>,
    section: &PipelineSection,
    name: Seq<char>,
    base: Option<Seq<char>>,
    v: Vec<Slot<E>>,
)
    requires
        builder::section_built(registry, section, name, base, Ok(v)),
    ensures
        chain_of_section(registry, section, base, v@),
{
    let r: Result<Vec<Slot<E>>, EffectError> = Ok(v);
    let keys = choose|keys: Result<(), EffectError>| #[trigger]
        builder::keys_checked(section, name, keys) && match keys {
            Err(e) => false,
            Ok(_) => exists|made: Result<Vec<NewEffect<E>>, EffectError>| #[trigger]
                registry.may_build_chain(section.chain@, made) && match made {
                    Err(e) => false,
                    Ok(chain) => builder::configured(section, registry, base, chain@, r),
                },
        };
    let made = choose|made: Result<Vec<NewEffect<E>>, EffectError>| #[trigger]
        registry.may_build_chain(section.chain@, made) && match made {
            Err(e) => false,
            Ok(chain) => builder::configured(section, registry, base, chain@, r),
        };
    let fresh = made->Ok_0@;
    assert forall|i: int| 0 <= i < v@.len() implies #[trigger] slot_of_section(
        registry,
        section,
        base,
        v@,
        i,
    ) by {
        assert(builder::slot_made(section, registry, base, fresh, v@, i));
        let key = section.chain@[i]@;
        let meta = registry@[key].metadata;
        let (on, table) = builder::given(section, key, meta, base)->Ok_0;
        let p = choose|p: RawEffectParams|
            p.table() == Some(table) && #[trigger] builder::taken(
                fresh[i],
                p,
                v@[i].held().keeps(),
                Ok(()),
            );
        assert(registry@.contains_key(section.chain@[i]@));
        assert(slot_from(registry, key, v@[i], fresh[i], p));
        let model = builder::section_table(section, key);
        let rest = metadata::split_model(key, model)->Ok_0.1;
        assert(rest =~= own_entries(section, key));
        let start = if rest != params::no_entries() {
            rest
        } else {
            metadata::default_entries(meta.params@)
        };
        assert forall|k: Seq<char>| #[trigger] based_at(start, meta.params@, base, table, k) by {
            lemma_based(start, meta.params@, base, k);
        }
    }
}

/// A composite effect is built of its own sections: each chain follows the section of its
/// name, an absent section gives an empty chain, and the model is the one of the mask
/// section, next to the configuration where its path is relative.
pub proof fn law_built_of_sections<'a, M: PixelMath, L: ModelLoader>(
    b: &CompositeBuilder<'a>,
    mask: &PipelineSection,
    background: Option<&PipelineSection>,
    foreground: Option<&PipelineSection>,
    post: Option<&PipelineSection>,
    base: &ConfigBase,
    math: M,
    loader: L,
    r: Result<CompositeEffect<M, L>, EffectError>,
)
    requires
        call_ensures(
            CompositeBuilder::<'a>::build::<M, L>,
            (b, mask, background, foreground, post, base, math, loader),
            r,
        ),
    ensures
        r matches Ok(c) ==> {
            &&& c.stored() is None
            &&& c.stage()@.engine is None
            &&& mask.model is Some
            &&& c.stage()@.model == paths::resolved(base@, mask.model->0@)
            &&& c.stage()@.sidecar == (match mask.model_config {
                Some(path) => Some(paths::resolved(base@, path@)),
                None => None,
            })
            &&& c.stage()@.threshold == (match mask.fallback_threshold {
                Some(n) => n,
                None => 3,
            })
            &&& chain_of_section(b.masks().generic(), mask, base@, c.masks())
            &&& background is None ==> c.backs().len() == 0
            &&& background matches Some(s) ==> chain_of_section(b.planes(), s, base@, c.backs())
            &&& foreground is None ==> c.fronts().len() == 0
            &&& foreground matches Some(s) ==> chain_of_section(b.planes(), s, base@, c.fronts())
            &&& post is None ==> c.posts().len() == 0
            &&& post matches Some(s) ==> chain_of_section(b.posts(), s, base@, c.posts())
        },
        mask.model is None ==> r is Err,
        mask.fallback_threshold == Some(0u32) ==> r is Err,
{
    if let Ok(c) = r {
        let v = choose|v: Vec<Slot<dyn MaskEffect>>|
            c.masks() == v@ && #[trigger] builder::section_built(
                b.masks().generic(),
                mask,
                "mask"@,
                base@,
                Ok(v),
            );
        lemma_chain_of_section(b.masks().generic(), mask, "mask"@, base@, v);
        let v = choose|v: Vec<Slot<dyn PlaneEffect>>|
            c.backs() == v@ && #[trigger] builder::optional_built(
                b.planes(),
                background,
                "background"@,
                base@,
                Ok(v),
            );
        if let Some(s) = background {
            lemma_chain_of_section(b.planes(), s, "background"@, base@, v);
        }
        let v = choose|v: Vec<Slot<dyn PlaneEffect>>|
            c.fronts() == v@ && #[trigger] builder::optional_built(
                b.planes(),
                foreground,
                "foreground"@,
                base@,
                Ok(v),
            );
        if let Some(s) = foreground {
            lemma_chain_of_section(b.planes(), s, "foreground"@, base@, v);
        }
        let v = choose|v: Vec<Slot<dyn PostEffect>>|
            c.posts() == v@ && #[trigger] builder::optional_built(
                b.posts(),
                post,
                "post"@,
                base@,
                Ok(v),
            );
        if let Some(s) = post {
            lemma_chain_of_section(b.posts(), s, "post"@, base@, v);
        }
    }
}

/// A section is refused where it has a table that belongs to no effect of its chain, and
/// outside the mask section where it has a model or a failure threshold among its tables.
pub proof fn law_stray_tables_refused(
    registry: &EffectRegistry<dyn PlaneEffect>,
    section: &PipelineSection,
    section_name: &str,
    base: &ConfigBase,
    r: Result<Vec<Slot<dyn PlaneEffect>>, EffectError>,
    i: int,
)
    requires
        call_ensures(
            builder::build_plane_chain,
            (registry, section, section_name, base),
            r,
        ),
        0 <= i < section.per_effect.listing().len(),
        ({
            let key = section.per_effect.listing()[i];
            ||| {
                &&& key != "chain"@ && key != "model"@ && key != "model_config"@ && key
                    != "fallback_threshold"@
                &&& forall|k: int|
                    0 <= k < section.chain@.len() ==> (#[trigger] section.chain@[k])@ != key
            }
            ||| section_name@ != "mask"@ && section.per_effect@.contains_key("model"@)
        }),
    ensures
        r is Err,
{
    let key = section.per_effect.listing()[i];
    if key != "chain"@ && key != "model"@ && key != "model_config"@ && key != "fallback_threshold"@
        && forall|k: int|
        0 <= k < section.chain@.len() ==> (#[trigger] section.chain@[k])@ != key {
        assert(section.stray(i));
    }
}

/// A segmentation is configured where it names an `.onnx` file, in any letter case, and
/// tolerates at least one failure.
pub proof fn law_segmentation_config_valid(
    c: &SegmentationConfig,
    extension: Option<String>,
    r: Result<(), EffectError>,
)
    requires
        call_ensures(SegmentationConfig::validate_extension, (c, &extension), r),
    ensures
        r is Ok <==> c.model@.len() > 0 && c.fallback_threshold > 0 && (extension matches Some(e)
            && text::lower(e@) == "onnx"@),
{
}

/// A table of a segmentation is read field by field: the model is required, the failure
/// threshold is three where there is none, and no other field is known.
pub proof fn law_segmentation_config_read(t: ParamTable, r: Result<SegmentationConfig, String>)
    requires
        call_ensures(SegmentationConfig::from_params, (RawEffectParams::Table(t),), r),
    ensures
        ({
            let m = params::entries(t);
            r matches Ok(c) ==> {
                &&& m.contains_key("model"@)
                &&& m["model"@] == ParamModel::Text(c.model@) || m["model"@]
                    == ParamModel::Datetime(c.model@)
                &&& c.model_config is Some <==> m.contains_key("model_config"@)
                &&& c.model_config matches Some(p) ==> m["model_config"@] == ParamModel::Text(p@)
                    || m["model_config"@] == ParamModel::Datetime(p@)
                &&& m.contains_key("fallback_threshold"@) ==> m["fallback_threshold"@]
                    == ParamModel::Integer(c.fallback_threshold as i64)
                &&& !m.contains_key("fallback_threshold"@) ==> c.fallback_threshold == 3
                &&& forall|k: Seq<char>| #[trigger]
                    m.contains_key(k) ==> k == "model"@ || k == "model_config"@ || k
                        == "fallback_threshold"@
            }
        }),
{
    let m = params::entries(t);
    if r is Ok {
        assert forall|k: Seq<char>| #[trigger] m.contains_key(k) implies k == "model"@ || k
            == "model_config"@ || k == "fallback_threshold"@ by {
            if k != "model"@ && k != "model_config"@ && k != "fallback_threshold"@ {
                let rest = m.remove("model"@).remove("model_config"@).remove(
                    "fallback_threshold"@,
                );
                assert(rest.contains_key(k));
            }
        }
    }
}

} // verus!
