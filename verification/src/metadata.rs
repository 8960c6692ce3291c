//! Self-describing parameter metadata for video effects.
//!
//! Each effect publishes its [`EffectMetadata`]; registries hand it to clients,
//! which never have to build an effect to inspect its parameters.  The metadata
//! is also the source of default values: [`EffectMetadata::default_config`]
//! makes a parameter table for an effect that was added without one.

use vstd::prelude::*;
use crate::error::EffectError;
use crate::params;
use crate::params::{ParamModel, ParamTable, ParamValue, RawEffectParams};
use crate::text;

verus! {

/// Reserved key of an effect's parameter table that switches the effect on or
/// off.  It is never handed to the effect.
pub const EFFECT_ENABLED_KEY: &'static str = "enabled";

/// Debounce window for light continuous parameters.
pub const DEBOUNCE_FAST_MS: u32 = 50;

/// Debounce window for parameters of medium cost.
pub const DEBOUNCE_STANDARD_MS: u32 = 100;

/// Debounce window for parameters whose change reallocates buffers.
pub const DEBOUNCE_HEAVY_MS: u32 = 200;

/// Linear or logarithmic mapping of a numeric parameter.
#[derive(Debug, Clone, Copy, PartialEq, Eq, Structural)]
#[non_exhaustive]
pub enum Scale {
    /// A slider tracks the value linearly.
    Linear,
    /// A slider tracks the logarithm of the value.
    Logarithmic,
}

/// When a client sends a change of a parameter.
#[derive(Debug, Clone, Copy, PartialEq, Eq, Structural)]
#[non_exhaustive]
pub enum CommitStrategy {
    /// Live updates, at most one per window.
    Live {
        /// Debounce window in milliseconds.
        debounce_ms: u32,
    },
    /// Only on a discrete "done" event.
    OnCommit,
    /// Immediately on change.
    Instant,
}

/// Type, default and bounds of a parameter.  Floating-point figures are
/// single-precision bit patterns.
#[derive(Debug, Clone, Copy)]
#[non_exhaustive]
#[allow(inconsistent_fields)]
pub enum ParamKind {
    /// A continuous parameter.
    Float {
        /// Value used when the field is absent.
        default: u32,
        /// Inclusive minimum.
        min: u32,
        /// Inclusive maximum.
        max: u32,
        /// Recommended step.
        step: u32,
        /// Mapping of a slider.
        scale: Scale,
    },
    /// A discrete parameter.
    Integer {
        /// Value used when the field is absent.
        default: i64,
        /// Inclusive minimum.
        min: i64,
        /// Inclusive maximum.
        max: i64,
        /// Recommended step.
        step: i64,
        /// Mapping of a slider.
        scale: Scale,
    },
    /// An on/off toggle.
    Bool {
        /// Value used when the field is absent.
        default: bool,
    },
    /// An RGB triple.
    Color {
        /// Value used when the field is absent.
        default: [u8; 3],
    },
    /// A filesystem path.
    Path {
        /// Path used when the field is absent, if any.
        default: Option<&'static str>,
        /// File extensions for file dialogues (lower case, no dot).
        extensions: &'static [&'static str],
        /// Whether the effect needs the field.
        required: bool,
    },
    /// A closed set of names.
    Enum {
        /// Name used when the field is absent.
        default: &'static str,
        /// Allowed names, in display order.
        variants: &'static [&'static str],
    },
}

/// One parameter of an effect.
#[derive(Debug, Clone, Copy)]
pub struct ParamDescriptor {
    /// Field name.
    pub name: &'static str,
    /// Type, default and bounds.
    pub kind: ParamKind,
    /// One-line help text.
    pub help: &'static str,
    /// How a client batches changes.
    pub commit: CommitStrategy,
}

/// Metadata of one effect.
#[derive(Debug, Clone, Copy)]
pub struct EffectMetadata {
    /// Registry name.
    pub name: &'static str,
    /// One-line summary.
    pub help: &'static str,
    /// Parameters, in display order.
    pub params: &'static [ParamDescriptor],
}

/// An effect's parameter table split into the enable flag and the parameters.
#[derive(Debug)]
pub struct ResolvedEffect {
    /// Whether the effect runs.
    pub enabled: bool,
    /// Parameters for the effect's `configure`, without the flag.
    pub params: RawEffectParams,
}

// ---------------------------------------------------------------------------
// Defaults
// ---------------------------------------------------------------------------

/// The list of the three channels of a colour.
pub open spec fn color_model(rgb: Seq<u8>) -> Seq<ParamModel> {
    seq![
        ParamModel::Integer(rgb[0] as i64),
        ParamModel::Integer(rgb[1] as i64),
        ParamModel::Integer(rgb[2] as i64),
    ]
}

impl ParamKind {
    /// The declared default; a path may have none.
    pub open spec fn default_value(self) -> Option<ParamModel> {
        match self {
            ParamKind::Float { default, .. } => Some(ParamModel::Float(default)),
            ParamKind::Integer { default, .. } => Some(ParamModel::Integer(default)),
            ParamKind::Bool { default } => Some(ParamModel::Boolean(default)),
            ParamKind::Color { default } => Some(ParamModel::Array(color_model(default@))),
            ParamKind::Path { default, .. } => match default {
                Some(path) => Some(ParamModel::Text(path@)),
                None => None,
            },
            ParamKind::Enum { default, .. } => Some(ParamModel::Text(default@)),
        }
    }

    /// Whether the parameter has to be set by hand.
    pub open spec fn must_be_set(self) -> bool {
        self matches ParamKind::Path { default, required, .. } && default is None && required
    }
}

/// Defaults of a list of parameters; of two with one name the later counts.
pub open spec fn default_entries(list: Seq<ParamDescriptor>) -> Map<Seq<char>, ParamModel>
    decreases list.len(),
{
    if list.len() == 0 {
        params::no_entries()
    } else {
        let rest = default_entries(list.drop_last());
        match list.last().kind.default_value() {
            Some(value) => rest.insert(list.last().name@, value),
            None => rest,
        }
    }
}

/// Names of the parameters that have to be set by hand, in order.
pub open spec fn missing_fields(list: Seq<ParamDescriptor>) -> Seq<Seq<char>>
    decreases list.len(),
{
    if list.len() == 0 {
        Seq::empty()
    } else {
        let rest = missing_fields(list.drop_last());
        if list.last().kind.must_be_set() {
            rest.push(list.last().name@)
        } else {
            rest
        }
    }
}

/// The declared default of `kind` as a value.
fn default_param(kind: ParamKind) -> (r: Option<ParamValue>)
    ensures
        match r {
            Some(v) => kind.default_value() == Some(v@),
            None => kind.default_value() is None,
        },
{
    match kind {
        ParamKind::Float { default, .. } => Some(ParamValue::Float(default)),
        ParamKind::Integer { default, .. } => Some(ParamValue::Integer(default)),
        ParamKind::Bool { default } => Some(ParamValue::Boolean(default)),
        ParamKind::Color { default } => {
            let mut channels: Vec<ParamValue> = Vec::new();
            channels.push(ParamValue::Integer(default[0] as i64));
            channels.push(ParamValue::Integer(default[1] as i64));
            channels.push(ParamValue::Integer(default[2] as i64));
            let value = ParamValue::Array(channels);
            assert(channels@[0].model() == ParamModel::Integer(default@[0] as i64));
            assert(channels@[1].model() == ParamModel::Integer(default@[1] as i64));
            assert(channels@[2].model() == ParamModel::Integer(default@[2] as i64));
            assert(value.model()->Array_0 =~= color_model(default@));
            Some(value)
        },
        ParamKind::Path { default, .. } => match default {
            Some(path) => Some(ParamValue::Text(path.to_owned())),
            None => None,
        },
        ParamKind::Enum { default, .. } => Some(ParamValue::Text(default.to_owned())),
    }
}

impl EffectMetadata {
    /// A parameter table with the default of every parameter that has one.
    ///
    /// The error lists the required path parameters without a default.
    /// Optional path parameters without a default are left out.
    pub fn default_config(&self) -> (r: Result<ParamTable, Vec<String>>)
        ensures
            match r {
                Ok(table) => missing_fields(self.params@).len() == 0 && params::entries(table)
                    == default_entries(self.params@),
                Err(missing) => missing@.len() > 0 && text::views(missing@) == missing_fields(
                    self.params@,
                ),
            },
    {
        let mut table = params::table_new();
        let mut missing: Vec<String> = Vec::new();
        let mut i: usize = 0;
        proof {
            assert(self.params@.take(0) =~= Seq::<ParamDescriptor>::empty());
            assert(text::views(missing@) =~= Seq::<Seq<char>>::empty());
        }
        while i < self.params.len()
            invariant
                i <= self.params@.len(),
                params::entries(table) == default_entries(self.params@.take(i as int)),
                text::views(missing@) == missing_fields(self.params@.take(i as int)),
            decreases self.params@.len() - i,
        {
            let param = self.params[i];
            proof {
                assert(self.params@.take(i + 1).drop_last() =~= self.params@.take(i as int));
                assert(self.params@.take(i + 1).last() == param);
            }
            let required: bool = match param.kind {
                ParamKind::Path { required, .. } => required,
                _ => false,
            };
            match default_param(param.kind) {
                Some(value) => {
                    params::table_insert(&mut table, param.name.to_owned(), value);
                },
                None => {
                    if required {
                        let ghost before = text::views(missing@);
                        missing.push(param.name.to_owned());
                        proof {
                            assert(text::views(missing@) =~= before.push(param.name@));
                        }
                    }
                },
            }
            i = i + 1;
        }
        proof {
            assert(self.params@.take(i as int) =~= self.params@);
            assert(text::views(missing@).len() == missing@.len());
        }
        if missing.len() == 0 {
            Ok(table)
        } else {
            Err(missing)
        }
    }
}

// ---------------------------------------------------------------------------
// Splitting and resolving a table
// ---------------------------------------------------------------------------

/// What stands where an effect's table is expected.
pub ghost enum TableModel {
    /// Nothing.
    Absent,
    /// A table.
    Table(Map<Seq<char>, ParamModel>),
    /// A value of the named type.
    Other(Seq<char>),
}

/// A refusal of an effect's table.
pub ghost struct Complaint {
    /// What is wrong.
    pub reason: Seq<char>,
    /// How to fix it.
    pub hint: Seq<char>,
}

/// What `table` is.
pub open spec fn table_model(table: Option<&RawEffectParams>) -> TableModel {
    match table {
        None => TableModel::Absent,
        Some(raw) => match *raw {
            RawEffectParams::Table(t) => TableModel::Table(params::entries(t)),
            RawEffectParams::Value(v) => TableModel::Other(v@.kind_text()),
        },
    }
}

/// Whether `e` refuses the configuration of effect `name` for the given
/// reason.
pub open spec fn refuses(e: EffectError, name: Seq<char>, c: Complaint) -> bool {
    e matches EffectError::InvalidConfig { name: n, reason, hint } && n@ == name && reason@
        == c.reason && (hint matches Some(h) && h@ == c.hint)
}

/// The flag and the parameters of a table.
pub open spec fn split_model(name: Seq<char>, table: TableModel) -> Result<
    (bool, Map<Seq<char>, ParamModel>),
    Complaint,
> {
    match table {
        TableModel::Absent => Ok((true, params::no_entries())),
        TableModel::Other(kind) => Err(
            Complaint {
                reason: "parameters must be a table, got "@ + kind,
                hint: "write the parameters under [<section>."@ + name + "]"@,
            },
        ),
        TableModel::Table(m) => {
            let rest = m.remove(EFFECT_ENABLED_KEY@);
            if !m.contains_key(EFFECT_ENABLED_KEY@) {
                Ok((true, rest))
            } else {
                match m[EFFECT_ENABLED_KEY@] {
                    ParamModel::Boolean(b) => Ok((b, rest)),
                    other => Err(
                        Complaint {
                            reason: "`enabled` must be a boolean, got "@ + other.kind_text(),
                            hint: "e.g. enabled = false"@,
                        },
                    ),
                }
            }
        },
    }
}

/// Split the table of effect `name` (`None` when there is none) into its
/// enable flag and the remaining parameters.
///
/// Refused when `table` is no table, or when the flag is no boolean.
pub fn split_effect_table(name: &str, table: Option<&RawEffectParams>) -> (r: Result<
    (bool, ParamTable),
    EffectError,
>)
    ensures
        match r {
            Ok((enabled, rest)) => split_model(name@, table_model(table)) == Ok::<
                (bool, Map<Seq<char>, ParamModel>),
                Complaint,
            >((enabled, params::entries(rest))),
            Err(e) => split_model(name@, table_model(table)) is Err && refuses(
                e,
                name@,
                split_model(name@, table_model(table))->Err_0,
            ),
        },
{
    let mut rest = match table {
        None => {
            let fresh = params::table_new();
            return Ok((true, fresh));
        },
        Some(raw) => match raw {
            RawEffectParams::Table(t) => params::table_clone(t),
            RawEffectParams::Value(v) => {
                let mut reason = "parameters must be a table, got ".to_owned();
                reason.append(v.type_str());
                let mut hint = "write the parameters under [<section>.".to_owned();
                hint.append(name);
                hint.append("]");
                return Err(EffectError::invalid_config(name, reason, Some(hint)));
            },
        },
    };
    let enabled: bool = match params::table_remove(&mut rest, EFFECT_ENABLED_KEY) {
        None => true,
        Some(value) => match value {
            ParamValue::Boolean(b) => b,
            other => {
                let mut reason = "`enabled` must be a boolean, got ".to_owned();
                reason.append(other.type_str());
                let hint = "e.g. enabled = false".to_owned();
                return Err(EffectError::invalid_config(name, reason, Some(hint)));
            },
        },
    };
    Ok((enabled, rest))
}

/// Field names between back quotes, separated by commas.
pub open spec fn quoted_list(fields: Seq<Seq<char>>) -> Seq<char>
    decreases fields.len(),
{
    if fields.len() == 0 {
        Seq::empty()
    } else if fields.len() == 1 {
        "`"@ + fields[0] + "`"@
    } else {
        quoted_list(fields.drop_last()) + ", `"@ + fields.last() + "`"@
    }
}

fn quote_fields(fields: &Vec<String>) -> (r: String)
    ensures
        r@ == quoted_list(text::views(fields@)),
{
    let mut out = String::new();
    let mut i: usize = 0;
    let ghost all = text::views(fields@);
    while i < fields.len()
        invariant
            i <= fields@.len(),
            all == text::views(fields@),
            out@ == quoted_list(all.take(i as int)),
        decreases fields@.len() - i,
    {
        let ghost before = out@;
        if i > 0 {
            out.append(", `");
        } else {
            out.append("`");
        }
        out.append(fields[i].as_str());
        out.append("`");
        proof {
            let next = all.take(i + 1);
            assert(next.drop_last() =~= all.take(i as int));
            assert(next.last() == fields@[i as int]@);
            if i == 0 {
                assert(out@ =~= "`"@ + next[0] + "`"@);
            } else {
                assert(out@ =~= before + ", `"@ + next.last() + "`"@);
            }
        }
        i = i + 1;
    }
    proof {
        assert(all.take(i as int) =~= all);
    }
    out
}

/// The flag and the parameters that an effect is configured with.
pub open spec fn resolve_model(
    name: Seq<char>,
    table: TableModel,
    metadata: Option<&EffectMetadata>,
) -> Result<(bool, Map<Seq<char>, ParamModel>), Complaint> {
    match split_model(name, table) {
        Err(c) => Err(c),
        Ok((enabled, rest)) => if rest != params::no_entries() {
            Ok((enabled, rest))
        } else {
            match metadata {
                None => Err(
                    Complaint {
                        reason:
                            "effect is registered without metadata; cannot synthesise defaults"@,
                        hint: "this is a programming error — every effect must declare `pub const METADATA: EffectMetadata`. Please file a bug."@,
                    },
                ),
                Some(m) => {
                    let missing = missing_fields(m.params@);
                    if missing.len() == 0 {
                        Ok((enabled, default_entries(m.params@)))
                    } else {
                        Err(
                            Complaint {
                                reason: "missing required field(s) "@ + quoted_list(missing)
                                    + "; set them via the parameter editor (or in fluxframe.toml) before adding this effect to a chain"@,
                                hint: "set the following field(s) on `"@ + name
                                    + "` explicitly, e.g. via the parameter editor: "@
                                    + quoted_list(missing),
                            },
                        )
                    }
                },
            }
        },
    }
}

/// Resolve what effect `name` is configured with.
///
/// An effect without parameters of its own (no table, or a table that only
/// carries the flag) gets the defaults declared in `metadata`.  Other tables
/// are passed through, without the flag.
pub fn resolve_effect_params(
    name: &str,
    table: Option<&RawEffectParams>,
    metadata: Option<&EffectMetadata>,
) -> (r: Result<ResolvedEffect, EffectError>)
    ensures
        match r {
            Ok(resolved) => resolved.params.table() is Some && resolve_model(
                name@,
                table_model(table),
                metadata,
            ) == Ok::<(bool, Map<Seq<char>, ParamModel>), Complaint>(
                (resolved.enabled, resolved.params.table()->0),
            ),
            Err(e) => resolve_model(name@, table_model(table), metadata) is Err && refuses(
                e,
                name@,
                resolve_model(name@, table_model(table), metadata)->Err_0,
            ),
        },
{
    let (enabled, rest) = match split_effect_table(name, table) {
        Ok(split) => split,
        Err(e) => {
            return Err(e);
        },
    };
    if !params::table_is_empty(&rest) {
        return Ok(ResolvedEffect { enabled, params: RawEffectParams::Table(rest) });
    }
    let metadata = match metadata {
        Some(m) => m,
        None => {
            let reason =
                "effect is registered without metadata; cannot synthesise defaults".to_owned();
            let hint =
                "this is a programming error — every effect must declare `pub const METADATA: EffectMetadata`. Please file a bug.".to_owned();
            return Err(EffectError::invalid_config(name, reason, Some(hint)));
        },
    };
    match metadata.default_config() {
        Ok(defaults) => Ok(ResolvedEffect { enabled, params: RawEffectParams::Table(defaults) }),
        Err(missing) => {
            let fields = quote_fields(&missing);
            let mut reason = "missing required field(s) ".to_owned();
            reason.append(fields.as_str());
            reason.append(
                "; set them via the parameter editor (or in fluxframe.toml) before adding this effect to a chain",
            );
            let mut hint = "set the following field(s) on `".to_owned();
            hint.append(name);
            hint.append("` explicitly, e.g. via the parameter editor: ");
            hint.append(fields.as_str());
            Err(EffectError::invalid_config(name, reason, Some(hint)))
        },
    }
}

/// The enable flag never reaches an effect through its own table.
pub proof fn law_flag_never_leaks(name: Seq<char>, table: TableModel)
    ensures
        split_model(name, table) matches Ok((_, rest)) ==> !rest.contains_key(
            EFFECT_ENABLED_KEY@,
        ),
{
}

/// A table that carries the flag alone configures an effect like no table at
/// all; only the flag differs.
pub proof fn law_flag_only_table_is_no_table(
    name: Seq<char>,
    flag: bool,
    metadata: Option<&EffectMetadata>,
)
    ensures
        ({
            let alone = TableModel::Table(
                params::no_entries().insert(EFFECT_ENABLED_KEY@, ParamModel::Boolean(flag)),
            );
            match resolve_model(name, TableModel::Absent, metadata) {
                Ok((_, defaults)) => resolve_model(name, alone, metadata) == Ok::<
                    (bool, Map<Seq<char>, ParamModel>),
                    Complaint,
                >((flag, defaults)),
                Err(c) => resolve_model(name, alone, metadata) == Err::<
                    (bool, Map<Seq<char>, ParamModel>),
                    Complaint,
                >(c),
            }
        }),
{
    assert(params::no_entries().insert(EFFECT_ENABLED_KEY@, ParamModel::Boolean(flag)).remove(
        EFFECT_ENABLED_KEY@,
    ) =~= params::no_entries());
}

/// Parameters other than the flag are passed through as they are.
pub proof fn law_explicit_table_passes_through(
    name: Seq<char>,
    own: Map<Seq<char>, ParamModel>,
    flag: bool,
    metadata: Option<&EffectMetadata>,
)
    requires
        !own.contains_key(EFFECT_ENABLED_KEY@),
        own != params::no_entries(),
    ensures
        resolve_model(name, TableModel::Table(own), metadata) == Ok::<
            (bool, Map<Seq<char>, ParamModel>),
            Complaint,
        >((true, own)),
        resolve_model(
            name,
            TableModel::Table(own.insert(EFFECT_ENABLED_KEY@, ParamModel::Boolean(flag))),
            metadata,
        ) == Ok::<(bool, Map<Seq<char>, ParamModel>), Complaint>((flag, own)),
{
    assert(own.remove(EFFECT_ENABLED_KEY@) =~= own);
    assert(own.insert(EFFECT_ENABLED_KEY@, ParamModel::Boolean(flag)).remove(EFFECT_ENABLED_KEY@)
        =~= own);
}

// ---------------------------------------------------------------------------
// Owned schemas
// ---------------------------------------------------------------------------

/// Owned form of [`EffectMetadata`].
#[derive(Debug)]
pub struct EffectSchema {
    /// Registry name.
    pub name: String,
    /// One-line summary.
    pub help: String,
    /// Parameters, in display order.
    pub params: Vec<ParamSchema>,
}

/// Owned form of [`ParamDescriptor`].
#[derive(Debug)]
pub struct ParamSchema {
    /// Field name.
    pub name: String,
    /// Type, default and bounds.
    pub kind: ParamKindSchema,
    /// One-line help text.
    pub help: String,
    /// How a client batches changes.
    pub commit: CommitStrategy,
}

/// Owned form of [`ParamKind`]; the fields mean what they mean there.
#[derive(Debug)]
#[non_exhaustive]
#[allow(inconsistent_fields)]
pub enum ParamKindSchema {
    /// A continuous parameter.
    Float {
        /// Default.
        default: u32,
        /// Minimum.
        min: u32,
        /// Maximum.
        max: u32,
        /// Step.
        step: u32,
        /// Mapping.
        scale: Scale,
    },
    /// A discrete parameter.
    Integer {
        /// Default.
        default: i64,
        /// Minimum.
        min: i64,
        /// Maximum.
        max: i64,
        /// Step.
        step: i64,
        /// Mapping.
        scale: Scale,
    },
    /// An on/off toggle.
    Bool {
        /// Default.
        default: bool,
    },
    /// An RGB triple.
    Color {
        /// Default.
        default: [u8; 3],
    },
    /// A filesystem path.
    Path {
        /// Default, if any.
        default: Option<String>,
        /// File extensions.
        extensions: Vec<String>,
        /// Whether the effect needs the field.
        required: bool,
    },
    /// A closed set of names.
    Enum {
        /// Default.
        default: String,
        /// Allowed names.
        variants: Vec<String>,
    },
}

/// Views of a list of string slices.
pub open spec fn str_views(v: Seq<&'static str>) -> Seq<Seq<char>> {
    v.map_values(|s: &'static str| s@)
}

fn own_strings(list: &'static [&'static str]) -> (r: Vec<String>)
    ensures
        text::views(r@) == str_views(list@),
{
    let mut out: Vec<String> = Vec::new();
    let mut i: usize = 0;
    while i < list.len()
        invariant
            i <= list@.len(),
            out@.len() == i,
            forall|k: int| 0 <= k < i ==> out@[k]@ == list@[k]@,
        decreases list@.len() - i,
    {
        out.push(list[i].to_owned());
        i = i + 1;
    }
    proof {
        assert(text::views(out@) =~= str_views(list@));
    }
    out
}

/// Whether `schema` says what `kind` says.
pub open spec fn kind_mirrors(schema: ParamKindSchema, kind: ParamKind) -> bool {
    match kind {
        ParamKind::Float { default, min, max, step, scale } => schema == (ParamKindSchema::Float {
            default,
            min,
            max,
            step,
            scale,
        }),
        ParamKind::Integer { default, min, max, step, scale } => schema == (
        ParamKindSchema::Integer { default, min, max, step, scale }),
        ParamKind::Bool { default } => schema == (ParamKindSchema::Bool { default }),
        ParamKind::Color { default } => schema == (ParamKindSchema::Color { default }),
        ParamKind::Path { default, extensions, required } => schema matches ParamKindSchema::Path {
            default: d,
            extensions: e,
            required: q,
        } && (match (d, default) {
            (Some(a), Some(b)) => a@ == b@,
            (None, None) => true,
            _ => false,
        }) && text::views(e@) == str_views(extensions@) && q == required,
        ParamKind::Enum { default, variants } => schema matches ParamKindSchema::Enum {
            default: d,
            variants: v,
        } && d@ == default@ && text::views(v@) == str_views(variants@),
    }
}

/// Whether `schema` says what `param` says.
pub open spec fn param_mirrors(schema: ParamSchema, param: ParamDescriptor) -> bool {
    &&& schema.name@ == param.name@
    &&& schema.help@ == param.help@
    &&& schema.commit == param.commit
    &&& kind_mirrors(schema.kind, param.kind)
}

impl ParamKindSchema {
    /// The owned form of `kind`.
    pub fn of(kind: ParamKind) -> (r: Self)
        ensures
            kind_mirrors(r, kind),
    {
        match kind {
            ParamKind::Float { default, min, max, step, scale } => ParamKindSchema::Float {
                default,
                min,
                max,
                step,
                scale,
            },
            ParamKind::Integer { default, min, max, step, scale } => ParamKindSchema::Integer {
                default,
                min,
                max,
                step,
                scale,
            },
            ParamKind::Bool { default } => ParamKindSchema::Bool { default },
            ParamKind::Color { default } => ParamKindSchema::Color { default },
            ParamKind::Path { default, extensions, required } => ParamKindSchema::Path {
                default: match default {
                    Some(path) => Some(path.to_owned()),
                    None => None,
                },
                extensions: own_strings(extensions),
                required,
            },
            ParamKind::Enum { default, variants } => ParamKindSchema::Enum {
                default: default.to_owned(),
                variants: own_strings(variants),
            },
        }
    }
}

impl ParamSchema {
    /// The owned form of `param`.
    pub fn of(param: &ParamDescriptor) -> (r: Self)
        ensures
            param_mirrors(r, *param),
    {
        ParamSchema {
            name: param.name.to_owned(),
            kind: ParamKindSchema::of(param.kind),
            help: param.help.to_owned(),
            commit: param.commit,
        }
    }
}

impl EffectSchema {
    /// The owned form of `meta`.
    pub fn of(meta: &EffectMetadata) -> (r: Self)
        ensures
            r.name@ == meta.name@,
            r.help@ == meta.help@,
            r.params@.len() == meta.params@.len(),
            forall|i: int|
                0 <= i < meta.params@.len() ==> param_mirrors(#[trigger] r.params@[i], meta.params@[i]),
    {
        let mut params: Vec<ParamSchema> = Vec::new();
        let mut i: usize = 0;
        while i < meta.params.len()
            invariant
                i <= meta.params@.len(),
                params@.len() == i,
                forall|k: int|
                    0 <= k < i ==> param_mirrors(#[trigger] params@[k], meta.params@[k]),
            decreases meta.params@.len() - i,
        {
            params.push(ParamSchema::of(&meta.params[i]));
            i = i + 1;
        }
        EffectSchema { name: meta.name.to_owned(), help: meta.help.to_owned(), params }
    }
}

impl From<ParamKind> for ParamKindSchema {
    fn from(kind: ParamKind) -> (r: Self) {
        ParamKindSchema::of(kind)
    }
}

impl vstd::std_specs::convert::FromSpecImpl<ParamKind> for ParamKindSchema {
    open spec fn obeys_from_spec() -> bool {
        false
    }

    open spec fn from_spec(kind: ParamKind) -> Self {
        arbitrary()
    }
}

impl<'a> From<&'a ParamDescriptor> for ParamSchema {
    fn from(param: &'a ParamDescriptor) -> (r: Self) {
        ParamSchema::of(param)
    }
}

impl<'a> vstd::std_specs::convert::FromSpecImpl<&'a ParamDescriptor> for ParamSchema {
    open spec fn obeys_from_spec() -> bool {
        false
    }

    open spec fn from_spec(param: &'a ParamDescriptor) -> Self {
        arbitrary()
    }
}

impl<'a> From<&'a EffectMetadata> for EffectSchema {
    fn from(meta: &'a EffectMetadata) -> (r: Self) {
        EffectSchema::of(meta)
    }
}

impl<'a> vstd::std_specs::convert::FromSpecImpl<&'a EffectMetadata> for EffectSchema {
    open spec fn obeys_from_spec() -> bool {
        false
    }

    open spec fn from_spec(meta: &'a EffectMetadata) -> Self {
        arbitrary()
    }
}

/// A table is split into its flag, which is true where there is none, and the entries
/// other than the flag, each as it is; anything that is no table and a flag that is no
/// truth value are refused.
pub proof fn law_table_split(
    name: &str,
    table: Option<&RawEffectParams>,
    r: Result<(bool, ParamTable), EffectError>,
)
    requires
        call_ensures(split_effect_table, (name, table), r),
    ensures
        table is None ==> (r matches Ok((on, rest)) && on && params::entries(rest)
            == Map::<Seq<char>, ParamModel>::empty()),
        table matches Some(raw) ==> (raw.table() is None ==> r is Err),
        table matches Some(raw) ==> (raw.table() matches Some(m) ==> {
            &&& r is Err <==> m.contains_key("enabled"@) && !(m["enabled"@] is Boolean)
            &&& r matches Ok((on, rest)) ==> {
                &&& m.contains_key("enabled"@) ==> m["enabled"@] == ParamModel::Boolean(on)
                &&& !m.contains_key("enabled"@) ==> on
                &&& forall|k: Seq<char>| #[trigger]
                    params::entries(rest).contains_key(k) <==> m.contains_key(k) && k != "enabled"@
                &&& forall|k: Seq<char>|
                    params::entries(rest).contains_key(k) ==> #[trigger] params::entries(rest)[k]
                        == m[k]
            }
        }),
{
}

/// Whether parameter `i` of a list is the last of its name.
pub open spec fn last_of_name(list: Seq<ParamDescriptor>, i: int) -> bool {
    forall|j: int| i < j < list.len() ==> (#[trigger] list[j]).name@ != list[i].name@
}

/// The defaults of a list of parameters with different names.
proof fn lemma_defaults(list: Seq<ParamDescriptor>)
    ensures
        forall|i: int|
            0 <= i < list.len() && last_of_name(list, i) && (#[trigger] list[i]).kind.default_value()
                is Some ==> default_entries(list).contains_key(list[i].name@) && default_entries(
                list,
            )[list[i].name@] == list[i].kind.default_value()->0,
        forall|k: Seq<char>| #[trigger]
            default_entries(list).contains_key(k) ==> exists|i: int|
                0 <= i < list.len() && (#[trigger] list[i]).name@ == k
                    && list[i].kind.default_value() is Some,
        missing_fields(list).len() == 0 <==> forall|i: int|
            0 <= i < list.len() ==> !(#[trigger] list[i]).kind.must_be_set(),
    decreases list.len(),
{
    if list.len() > 0 {
        let fewer = list.drop_last();
        lemma_defaults(fewer);
        let last = list.len() - 1;
        assert forall|i: int|
            0 <= i < list.len() && last_of_name(list, i) && (#[trigger] list[i]).kind.default_value()
                is Some implies default_entries(list).contains_key(list[i].name@)
            && default_entries(list)[list[i].name@] == list[i].kind.default_value()->0 by {
            if i < last {
                assert(fewer[i] == list[i]);
                assert forall|j: int| i < j < fewer.len() implies (#[trigger] fewer[j]).name@
                    != fewer[i].name@ by {
                    assert(list[j].name@ != list[i].name@);
                }
                assert(last_of_name(fewer, i));
                assert(list[last].name@ != list[i].name@);
            }
        }
        assert forall|k: Seq<char>| #[trigger] default_entries(list).contains_key(k) implies exists|
            i: int,
        |
            0 <= i < list.len() && (#[trigger] list[i]).name@ == k && list[i].kind.default_value()
                is Some by {
            if default_entries(fewer).contains_key(k) {
                let i = choose|i: int|
                    0 <= i < fewer.len() && (#[trigger] fewer[i]).name@ == k
                        && fewer[i].kind.default_value() is Some;
                assert(list[i] == fewer[i]);
            } else {
                assert(list[last].name@ == k);
            }
        }
        if forall|i: int| 0 <= i < list.len() ==> !(#[trigger] list[i]).kind.must_be_set() {
            assert forall|i: int| 0 <= i < fewer.len() implies !(
            #[trigger] fewer[i]).kind.must_be_set() by {
                assert(list[i] == fewer[i]);
            }
            assert(!list[last].kind.must_be_set());
        }
        if missing_fields(list).len() == 0 {
            assert forall|i: int| 0 <= i < list.len() implies !(
            #[trigger] list[i]).kind.must_be_set() by {
                if i < last {
                    assert(list[i] == fewer[i]);
                }
            }
        }
    }
}

/// The default table has, for each parameter, the value that the parameter declares, and
/// nothing else; there is none exactly where a path has to be set and has no default.
pub proof fn law_default_table(m: &EffectMetadata, r: Result<ParamTable, Vec<String>>, i: int)
    requires
        call_ensures(EffectMetadata::default_config, (m,), r),
        0 <= i < m.params@.len(),
        last_of_name(m.params@, i),
    ensures
        r is Err <==> exists|j: int|
            0 <= j < m.params@.len() && (#[trigger] m.params@[j]).kind.must_be_set(),
        r matches Ok(t) ==> match m.params@[i].kind {
            ParamKind::Float { default, .. } => params::entry(
                params::entries(t),
                m.params@[i].name@,
            ) == Some(ParamModel::Float(default)),
            ParamKind::Integer { default, .. } => params::entry(
                params::entries(t),
                m.params@[i].name@,
            ) == Some(ParamModel::Integer(default)),
            ParamKind::Bool { default } => params::entry(params::entries(t), m.params@[i].name@)
                == Some(ParamModel::Boolean(default)),
            ParamKind::Enum { default, .. } => params::entry(
                params::entries(t),
                m.params@[i].name@,
            ) == Some(ParamModel::Text(default@)),
            ParamKind::Color { default } => params::entry(params::entries(t), m.params@[i].name@)
                == Some(
                ParamModel::Array(
                    seq![
                        ParamModel::Integer(default@[0] as i64),
                        ParamModel::Integer(default@[1] as i64),
                        ParamModel::Integer(default@[2] as i64),
                    ],
                ),
            ),
            ParamKind::Path { default, .. } => default matches Some(p) ==> params::entry(
                params::entries(t),
                m.params@[i].name@,
            ) == Some(ParamModel::Text(p@)),
        },
        r matches Ok(t) ==> forall|k: Seq<char>| #[trigger]
            params::entries(t).contains_key(k) ==> exists|j: int|
                0 <= j < m.params@.len() && (#[trigger] m.params@[j]).name@ == k,
{
    lemma_defaults(m.params@);
    let p = m.params@[i];
    assert(p == m.params@[i]);
}

/// An effect runs with its own entries where it has any and with its declared defaults
/// where it has none; the flag is the one of its table, and true where there is none.
pub proof fn law_effect_resolved(
    name: &str,
    table: Option<&RawEffectParams>,
    metadata: Option<&EffectMetadata>,
    r: Result<ResolvedEffect, EffectError>,
    split: Result<(bool, ParamTable), EffectError>,
    defaults: Result<ParamTable, Vec<String>>,
)
    requires
        call_ensures(resolve_effect_params, (name, table, metadata), r),
        call_ensures(split_effect_table, (name, table), split),
        metadata matches Some(m) ==> call_ensures(EffectMetadata::default_config, (m,), defaults),
    ensures
        split is Err ==> r is Err,
        split matches Ok((on, rest)) ==> {
            &&& params::entries(rest) != Map::<Seq<char>, ParamModel>::empty() ==> (r matches Ok(e)
                && e.enabled == on && e.params.table() == Some(params::entries(rest)))
            &&& params::entries(rest) == Map::<Seq<char>, ParamModel>::empty() ==> {
                &&& metadata is None ==> r is Err
                &&& metadata is Some ==> (r is Ok <==> defaults is Ok)
                &&& r matches Ok(e) ==> e.enabled == on && e.params.table() == Some(
                    params::entries(defaults->Ok_0),
                )
            }
        },
{
}

/// An owned description says what the description says, field by field.
pub proof fn law_schema_of_parameter(p: &ParamDescriptor, r: ParamSchema)
    requires
        call_ensures(ParamSchema::of, (p,), r),
    ensures
        r.name@ == p.name@,
        r.help@ == p.help@,
        r.commit == p.commit,
        match (p.kind, r.kind) {
            (
                ParamKind::Float { default, min, max, step, scale },
                ParamKindSchema::Float { default: a, min: b, max: c, step: d, scale: e },
            ) => a == default && b == min && c == max && d == step && e == scale,
            (
                ParamKind::Integer { default, min, max, step, scale },
                ParamKindSchema::Integer { default: a, min: b, max: c, step: d, scale: e },
            ) => a == default && b == min && c == max && d == step && e == scale,
            (ParamKind::Bool { default }, ParamKindSchema::Bool { default: a }) => a == default,
            (ParamKind::Color { default }, ParamKindSchema::Color { default: a }) => a == default,
            (
                ParamKind::Path { default, extensions, required },
                ParamKindSchema::Path { default: a, extensions: b, required: c },
            ) => {
                &&& a is Some <==> default is Some
                &&& a matches Some(x) ==> x@ == default->0@
                &&& b@.len() == extensions@.len()
                &&& forall|i: int| 0 <= i < b@.len() ==> (#[trigger] b@[i])@ == extensions@[i]@
                &&& c == required
            },
            (
                ParamKind::Enum { default, variants },
                ParamKindSchema::Enum { default: a, variants: b },
            ) => {
                &&& a@ == default@
                &&& b@.len() == variants@.len()
                &&& forall|i: int| 0 <= i < b@.len() ==> (#[trigger] b@[i])@ == variants@[i]@
            },
            _ => false,
        },
{
    match (p.kind, r.kind) {
        (
            ParamKind::Path { extensions, .. },
            ParamKindSchema::Path { extensions: b, .. },
        ) => {
            lemma_same_texts(b@, extensions@);
        },
        (ParamKind::Enum { variants, .. }, ParamKindSchema::Enum { variants: b, .. }) => {
            lemma_same_texts(b@, variants@);
        },
        _ => {},
    }
}

/// Lists of the same texts.
proof fn lemma_same_texts(a: Seq<String>, b: Seq<&'static str>)
    requires
        text::views(a) == str_views(b),
    ensures
        a.len() == b.len(),
        forall|i: int| 0 <= i < a.len() ==> (#[trigger] a[i])@ == b[i]@,
{
    assert(text::views(a).len() == a.len() && str_views(b).len() == b.len());
    assert forall|i: int| 0 <= i < a.len() implies (#[trigger] a[i])@ == b[i]@ by {
        assert(text::views(a)[i] == str_views(b)[i]);
    }
}

} // verus!
