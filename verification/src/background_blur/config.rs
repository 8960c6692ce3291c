//! Parameters of the background blur.

use vstd::prelude::*;
use crate::background_blur::defaults;
use crate::error::EffectError;
use crate::float_bits;
use crate::mask_effects;
use crate::params::{self, ParamModel, ParamTable, ParamValue, RawEffectParams};
use crate::paths;
use crate::text;

verus! {

/// Largest radius of the box blur.
pub const MAX_BLUR_RADIUS: u32 = 256;

/// Largest number of box-blur passes.
pub const MAX_BLUR_PASSES: u32 = 16;

/// Largest number of dilation passes.
pub const MAX_DILATE: u32 = 32;

/// Largest feather radius.
pub const MAX_FEATHER_RADIUS: u32 = 64;

/// Name of the effect.
pub const BACKGROUND_BLUR: &'static str = "background_blur";

/// User-configurable parameters.
#[derive(Debug)]
pub struct BlurConfig {
    /// Path of the model.
    pub model: String,
    /// Path of the model configuration; next to the model when absent.
    pub model_config: Option<String>,
    /// Half-kernel radius of the box blur (pixels).
    pub blur_radius: u32,
    /// Number of box-blur passes.
    pub blur_passes: u32,
    /// Bit pattern of the mask binarisation threshold in the unit interval.
    pub mask_threshold: u32,
    /// Bit pattern of the weight of the previous mask in the unit interval.
    pub mask_smoothing: u32,
    /// Feather radius in pixels.
    pub mask_feather_radius: u32,
    /// Number of dilation passes before feathering.
    pub mask_dilate: u32,
    /// Consecutive failures that end the pipeline.
    pub fallback_threshold: u32,
}

/// `<what> must be <= <max>, got <got>`.
pub open spec fn beyond(what: Seq<char>, max: u32, got: u32) -> Seq<char> {
    what + " must be <= "@ + text::decimal(max as nat) + ", got "@ + text::decimal(got as nat)
}

fn beyond_text(what: &str, max: u32, got: u32) -> (r: String)
    ensures
        r@ == beyond(what@, max, got),
{
    let mut out = what.to_owned();
    out.append(" must be <= ");
    text::push_decimal(&mut out, max as u64);
    out.append(", got ");
    text::push_decimal(&mut out, got as u64);
    out
}

impl BlurConfig {
    /// Path of the model's configuration, where one is given.
    pub open spec fn sidecar(&self) -> Option<Seq<char>> {
        match self.model_config {
            Some(path) => Some(path@),
            None => None,
        }
    }

    /// Why the numbers are refused, if they are.
    pub open spec fn number_defect(&self) -> Option<Seq<char>> {
        if !float_bits::in_unit(self.mask_threshold) {
            Some("mask_threshold must be in [0,1]"@)
        } else if !float_bits::in_unit(self.mask_smoothing) {
            Some("mask_smoothing must be in [0,1]"@)
        } else if self.blur_radius > MAX_BLUR_RADIUS {
            Some(beyond("blur_radius"@, MAX_BLUR_RADIUS, self.blur_radius))
        } else if self.blur_passes > MAX_BLUR_PASSES {
            Some(beyond("blur_passes"@, MAX_BLUR_PASSES, self.blur_passes))
        } else if self.mask_dilate > MAX_DILATE {
            Some(beyond("mask_dilate"@, MAX_DILATE, self.mask_dilate))
        } else if self.mask_feather_radius > MAX_FEATHER_RADIUS {
            Some(beyond("mask_feather_radius"@, MAX_FEATHER_RADIUS, self.mask_feather_radius))
        } else if self.fallback_threshold == 0 {
            Some("fallback_threshold must be >= 1; 0 means 'never tolerate' which is unintended"@)
        } else {
            None
        }
    }

    /// Why the configuration is refused, if it is, where the model's path has the
    /// extension `extension`.
    pub open spec fn defect_with(&self, extension: Option<Seq<char>>) -> Option<Seq<char>> {
        if self.model@.len() == 0 {
            Some("`model` is required"@)
        } else {
            match extension {
                None => Some("`model` must point to an .onnx file (no extension found)"@),
                Some(ext) => if text::lower(ext) != "onnx"@ {
                    Some("`model` must point to an .onnx file, got extension `"@ + ext + "`"@)
                } else {
                    self.number_defect()
                },
            }
        }
    }

    /// Why the configuration is refused, if it is.
    pub open spec fn defect(&self) -> Option<Seq<char>> {
        self.defect_with(paths::path_extension(self.model@))
    }

    /// Check that the model is an `.onnx` file and the numbers are in range.
    pub fn validate(&self) -> (r: Result<(), EffectError>)
        ensures
            mask_effects::configured(BACKGROUND_BLUR@, self.defect(), r),
            paths::extended(self.model@) && text::lower(paths::after_dot(self.model@)) == "onnx"@
                && self.number_defect() is None ==> r is Ok,
    {
        let extension = paths::extension_of(self.model.as_str());
        proof {
            if paths::extended(self.model@) {
                assert(self.model@.len() > 0);
            }
        }
        self.validate_extension(&extension)
    }

    /// Check a model path with the given extension, and the numbers.
    pub fn validate_extension(&self, extension: &Option<String>) -> (r: Result<(), EffectError>)
        ensures
            mask_effects::configured(
                BACKGROUND_BLUR@,
                self.defect_with(paths::string_chars(*extension)),
                r,
            ),
    {
        let reason: String = if !paths::has_text(self.model.as_str()) {
            "`model` is required".to_owned()
        } else {
            match extension {
                None => "`model` must point to an .onnx file (no extension found)".to_owned(),
                Some(ext) => {
                    let lower = text::to_lower(ext.as_str());
                    if !text::same(lower.as_str(), "onnx") {
                        let mut out =
                            "`model` must point to an .onnx file, got extension `".to_owned();
                        out.append(ext.as_str());
                        out.append("`");
                        out
                    } else {
                        match self.number_complaint() {
                            Some(reason) => reason,
                            None => {
                                return Ok(());
                            },
                        }
                    }
                },
            }
        };
        Err(mask_effects::invalid_config(BACKGROUND_BLUR, reason))
    }

    fn number_complaint(&self) -> (r: Option<String>)
        ensures
            match r {
                Some(s) => self.number_defect() == Some(s@),
                None => self.number_defect() is None,
            },
    {
        if !float_bits::is_in_unit(self.mask_threshold) {
            Some("mask_threshold must be in [0,1]".to_owned())
        } else if !float_bits::is_in_unit(self.mask_smoothing) {
            Some("mask_smoothing must be in [0,1]".to_owned())
        } else if self.blur_radius > MAX_BLUR_RADIUS {
            Some(beyond_text("blur_radius", MAX_BLUR_RADIUS, self.blur_radius))
        } else if self.blur_passes > MAX_BLUR_PASSES {
            Some(beyond_text("blur_passes", MAX_BLUR_PASSES, self.blur_passes))
        } else if self.mask_dilate > MAX_DILATE {
            Some(beyond_text("mask_dilate", MAX_DILATE, self.mask_dilate))
        } else if self.mask_feather_radius > MAX_FEATHER_RADIUS {
            Some(
                beyond_text("mask_feather_radius", MAX_FEATHER_RADIUS, self.mask_feather_radius),
            )
        } else if self.fallback_threshold == 0 {
            Some(
                "fallback_threshold must be >= 1; 0 means 'never tolerate' which is unintended".to_owned(),
            )
        } else {
            None
        }
    }
}

// ---------------------------------------------------------------------------
// Reading a parameter table
// ---------------------------------------------------------------------------

/// Bit pattern of an integer, as far as the unit interval goes: every integer
/// beyond it is alike.
pub open spec fn integer_bits(i: i64) -> u32 {
    if i == 0 {
        float_bits::ZERO
    } else if i == 1 {
        float_bits::ONE
    } else {
        float_bits::INFINITY
    }
}

/// Bit pattern of the number that an optional value spells.
pub open spec fn number_of(v: Option<ParamModel>, key: Seq<char>, default: u32) -> Result<
    u32,
    Seq<char>,
> {
    match v {
        None => Ok(default),
        Some(ParamModel::Float(bits)) => Ok(bits),
        Some(ParamModel::Double { single, .. }) => Ok(single),
        Some(ParamModel::Integer(i)) => Ok(integer_bits(i)),
        Some(other) => Err("`"@ + key + "` must be a number, got "@ + other.kind_text()),
    }
}

fn take_number(table: &mut ParamTable, key: &str, default: u32) -> (r: Result<u32, String>)
    ensures
        params::entries(*final(table)) == params::entries(*old(table)).remove(key@),
        match r {
            Ok(v) => number_of(params::entry(params::entries(*old(table)), key@), key@, default) == Ok::<
                u32,
                Seq<char>,
            >(v),
            Err(e) => number_of(params::entry(params::entries(*old(table)), key@), key@, default) == Err::<
                u32,
                Seq<char>,
            >(e@),
        },
{
    match params::table_remove(table, key) {
        None => Ok(default),
        Some(ParamValue::Float(bits)) => Ok(bits),
        Some(ParamValue::Double { single, .. }) => Ok(single),
        Some(ParamValue::Integer(i)) => Ok(
            if i == 0 {
                float_bits::ZERO
            } else if i == 1 {
                float_bits::ONE
            } else {
                float_bits::INFINITY
            },
        ),
        Some(other) => {
            let mut reason = "`".to_owned();
            reason.append(key);
            reason.append("` must be a number, got ");
            reason.append(other.type_str());
            Err(reason)
        },
    }
}

/// Whether a table may have an entry `key`.
pub open spec fn known(key: Seq<char>) -> bool {
    ||| key == "model"@
    ||| key == "model_config"@
    ||| key == "blur_radius"@
    ||| key == "blur_passes"@
    ||| key == "mask_threshold"@
    ||| key == "mask_smoothing"@
    ||| key == "mask_feather_radius"@
    ||| key == "mask_dilate"@
    ||| key == "fallback_threshold"@
}

/// The names of the fields, in order.
pub open spec fn field_names() -> Seq<Seq<char>> {
    seq![
        "model"@,
        "model_config"@,
        "blur_radius"@,
        "blur_passes"@,
        "mask_threshold"@,
        "mask_smoothing"@,
        "mask_feather_radius"@,
        "mask_dilate"@,
        "fallback_threshold"@,
    ]
}

/// The fields of a table, each on its own.
pub ghost struct Fields {
    /// Path of the model.
    pub model: Result<Option<Seq<char>>, Seq<char>>,
    /// Path of the model configuration.
    pub model_config: Result<Option<Seq<char>>, Seq<char>>,
    /// Radius of the box blur.
    pub blur_radius: Result<u32, Seq<char>>,
    /// Passes of the box blur.
    pub blur_passes: Result<u32, Seq<char>>,
    /// Binarisation threshold.
    pub mask_threshold: Result<u32, Seq<char>>,
    /// Weight of the previous mask.
    pub mask_smoothing: Result<u32, Seq<char>>,
    /// Feather radius.
    pub mask_feather_radius: Result<u32, Seq<char>>,
    /// Dilation passes.
    pub mask_dilate: Result<u32, Seq<char>>,
    /// Failure budget.
    pub fallback_threshold: Result<u32, Seq<char>>,
}

/// The fields of the table `m`.
pub open spec fn fields(m: Map<Seq<char>, ParamModel>) -> Fields {
    Fields {
        model: params::text_of(params::entry(m, "model"@), "model"@),
        model_config: params::text_of(params::entry(m, "model_config"@), "model_config"@),
        blur_radius: params::integer_of(params::entry(m, "blur_radius"@), "blur_radius"@, defaults::BLUR_RADIUS),
        blur_passes: params::integer_of(params::entry(m, "blur_passes"@), "blur_passes"@, defaults::BLUR_PASSES),
        mask_threshold: number_of(
            params::entry(m, "mask_threshold"@),
            "mask_threshold"@,
            defaults::MASK_THRESHOLD,
        ),
        mask_smoothing: number_of(
            params::entry(m, "mask_smoothing"@),
            "mask_smoothing"@,
            defaults::MASK_SMOOTHING,
        ),
        mask_feather_radius: params::integer_of(
            params::entry(m, "mask_feather_radius"@),
            "mask_feather_radius"@,
            defaults::MASK_FEATHER_RADIUS,
        ),
        mask_dilate: params::integer_of(params::entry(m, "mask_dilate"@), "mask_dilate"@, defaults::MASK_DILATE),
        fallback_threshold: params::integer_of(
            params::entry(m, "fallback_threshold"@),
            "fallback_threshold"@,
            defaults::FALLBACK_THRESHOLD,
        ),
    }
}

/// What is wrong with the table `m`, if anything is.
pub open spec fn table_complaint(m: Map<Seq<char>, ParamModel>) -> Option<Seq<char>> {
    let f = fields(m);
    if f.model is Err {
        params::wrong(f.model)
    } else if f.model_config is Err {
        params::wrong(f.model_config)
    } else if f.blur_radius is Err {
        params::wrong(f.blur_radius)
    } else if f.blur_passes is Err {
        params::wrong(f.blur_passes)
    } else if f.mask_threshold is Err {
        params::wrong(f.mask_threshold)
    } else if f.mask_smoothing is Err {
        params::wrong(f.mask_smoothing)
    } else if f.mask_feather_radius is Err {
        params::wrong(f.mask_feather_radius)
    } else if f.mask_dilate is Err {
        params::wrong(f.mask_dilate)
    } else if f.fallback_threshold is Err {
        params::wrong(f.fallback_threshold)
    } else if exists|k: Seq<char>| #[trigger] m.contains_key(k) && !known(k) {
        Some("unknown field"@)
    } else if f.model == Ok::<Option<Seq<char>>, Seq<char>>(None) {
        Some("missing field `model`"@)
    } else {
        None
    }
}

/// What is wrong with `params` as parameters of the effect, if anything is.
pub open spec fn parse_complaint(params: RawEffectParams) -> Option<Seq<char>> {
    match params.fields(field_names()) {
        Err(reason) => Some(reason),
        Ok(m) => table_complaint(m),
    }
}

impl BlurConfig {
    /// Whether the configuration is what the table `m` spells.
    pub open spec fn spelled(&self, m: Map<Seq<char>, ParamModel>) -> bool {
        let f = fields(m);
        &&& f.model == Ok::<Option<Seq<char>>, Seq<char>>(Some(self.model@))
        &&& f.model_config == Ok::<Option<Seq<char>>, Seq<char>>(
            paths::string_chars(self.model_config),
        )
        &&& f.blur_radius == Ok::<u32, Seq<char>>(self.blur_radius)
        &&& f.blur_passes == Ok::<u32, Seq<char>>(self.blur_passes)
        &&& f.mask_threshold == Ok::<u32, Seq<char>>(self.mask_threshold)
        &&& f.mask_smoothing == Ok::<u32, Seq<char>>(self.mask_smoothing)
        &&& f.mask_feather_radius == Ok::<u32, Seq<char>>(self.mask_feather_radius)
        &&& f.mask_dilate == Ok::<u32, Seq<char>>(self.mask_dilate)
        &&& f.fallback_threshold == Ok::<u32, Seq<char>>(self.fallback_threshold)
    }

    /// Read a table of parameters.
    pub fn from_params(params: RawEffectParams) -> (r: Result<Self, String>)
        ensures
            match r {
                Ok(c) => parse_complaint(params) is None && c.spelled(
                    params.fields(field_names())->Ok_0,
                ),
                Err(e) => parse_complaint(params) == Some(e@),
            },
    {
        let names = [
            "model",
            "model_config",
            "blur_radius",
            "blur_passes",
            "mask_threshold",
            "mask_smoothing",
            "mask_feather_radius",
            "mask_dilate",
            "fallback_threshold",
        ];
        assert(params::views(names@) =~= field_names());
        let mut table = match params.into_fields(&names) {
            Ok(t) => t,
            Err(reason) => {
                return Err(reason);
            },
        };
        let ghost m = params::entries(table);
        proof {
            lemma_distinct();
        }
        let model = match params::take_text(&mut table, "model") {
            Ok(v) => v,
            Err(e) => {
                return Err(e);
            },
        };
        let model_config = match params::take_text(&mut table, "model_config") {
            Ok(v) => v,
            Err(e) => {
                return Err(e);
            },
        };
        let blur_radius: u32 = match params::take_integer(
            &mut table,
            "blur_radius",
            defaults::BLUR_RADIUS,
        ) {
            Ok(v) => v,
            Err(e) => {
                return Err(e);
            },
        };
        let blur_passes: u32 = match params::take_integer(
            &mut table,
            "blur_passes",
            defaults::BLUR_PASSES,
        ) {
            Ok(v) => v,
            Err(e) => {
                return Err(e);
            },
        };
        let mask_threshold: u32 = match take_number(
            &mut table,
            "mask_threshold",
            defaults::MASK_THRESHOLD,
        ) {
            Ok(v) => v,
            Err(e) => {
                return Err(e);
            },
        };
        let mask_smoothing: u32 = match take_number(
            &mut table,
            "mask_smoothing",
            defaults::MASK_SMOOTHING,
        ) {
            Ok(v) => v,
            Err(e) => {
                return Err(e);
            },
        };
        let mask_feather_radius: u32 = match params::take_integer(
            &mut table,
            "mask_feather_radius",
            defaults::MASK_FEATHER_RADIUS,
        ) {
            Ok(v) => v,
            Err(e) => {
                return Err(e);
            },
        };
        let mask_dilate: u32 = match params::take_integer(
            &mut table,
            "mask_dilate",
            defaults::MASK_DILATE,
        ) {
            Ok(v) => v,
            Err(e) => {
                return Err(e);
            },
        };
        let fallback_threshold: u32 = match params::take_integer(
            &mut table,
            "fallback_threshold",
            defaults::FALLBACK_THRESHOLD,
        ) {
            Ok(v) => v,
            Err(e) => {
                return Err(e);
            },
        };
        let ghost rest = params::entries(table);
        proof {
            assert forall|k: Seq<char>| #[trigger] rest.contains_key(k) implies m.contains_key(k)
                && !known(k) by {}
            assert forall|k: Seq<char>| #[trigger] m.contains_key(k) && !known(k) implies
                rest.contains_key(k) by {}
            if rest != params::no_entries() {
                assert(exists|k: Seq<char>| #[trigger] rest.contains_key(k)) by {
                    if forall|k: Seq<char>| !rest.contains_key(k) {
                        assert(rest =~= params::no_entries());
                    }
                }
            }
        }
        if !params::table_is_empty(&table) {
            return Err("unknown field".to_owned());
        }
        let model = match model {
            Some(s) => s,
            None => {
                return Err("missing field `model`".to_owned());
            },
        };
        Ok(
            BlurConfig {
                model,
                model_config,
                blur_radius,
                blur_passes,
                mask_threshold,
                mask_smoothing,
                mask_feather_radius,
                mask_dilate,
                fallback_threshold,
            },
        )
    }
}

/// The names of the fields differ.
proof fn lemma_distinct()
    ensures
        "model"@ != "model_config"@,
        "model"@ != "blur_radius"@,
        "model"@ != "blur_passes"@,
        "model"@ != "mask_threshold"@,
        "model"@ != "mask_smoothing"@,
        "model"@ != "mask_feather_radius"@,
        "model"@ != "mask_dilate"@,
        "model"@ != "fallback_threshold"@,
        "model_config"@ != "blur_radius"@,
        "model_config"@ != "blur_passes"@,
        "model_config"@ != "mask_threshold"@,
        "model_config"@ != "mask_smoothing"@,
        "model_config"@ != "mask_feather_radius"@,
        "model_config"@ != "mask_dilate"@,
        "model_config"@ != "fallback_threshold"@,
        "blur_radius"@ != "blur_passes"@,
        "blur_radius"@ != "mask_threshold"@,
        "blur_radius"@ != "mask_smoothing"@,
        "blur_radius"@ != "mask_feather_radius"@,
        "blur_radius"@ != "mask_dilate"@,
        "blur_radius"@ != "fallback_threshold"@,
        "blur_passes"@ != "mask_threshold"@,
        "blur_passes"@ != "mask_smoothing"@,
        "blur_passes"@ != "mask_feather_radius"@,
        "blur_passes"@ != "mask_dilate"@,
        "blur_passes"@ != "fallback_threshold"@,
        "mask_threshold"@ != "mask_smoothing"@,
        "mask_threshold"@ != "mask_feather_radius"@,
        "mask_threshold"@ != "mask_dilate"@,
        "mask_threshold"@ != "fallback_threshold"@,
        "mask_smoothing"@ != "mask_feather_radius"@,
        "mask_smoothing"@ != "mask_dilate"@,
        "mask_smoothing"@ != "fallback_threshold"@,
        "mask_feather_radius"@ != "mask_dilate"@,
        "mask_feather_radius"@ != "fallback_threshold"@,
        "mask_dilate"@ != "fallback_threshold"@,
{
    reveal_strlit("model");
    reveal_strlit("model_config");
    reveal_strlit("blur_radius");
    reveal_strlit("blur_passes");
    reveal_strlit("mask_threshold");
    reveal_strlit("mask_smoothing");
    reveal_strlit("mask_feather_radius");
    reveal_strlit("mask_dilate");
    reveal_strlit("fallback_threshold");
    assert("model"@.len() == 5);
    assert("model_config"@.len() == 12);
    assert("blur_radius"@.len() == 11);
    assert("blur_passes"@.len() == 11);
    assert("mask_threshold"@.len() == 14);
    assert("mask_smoothing"@.len() == 14);
    assert("mask_feather_radius"@.len() == 19);
    assert("mask_dilate"@.len() == 11);
    assert("fallback_threshold"@.len() == 18);
    // Names of equal length differ in the character given.
    assert("blur_radius"@[5] != "blur_passes"@[5]);
    assert("blur_radius"@[0] != "mask_dilate"@[0]);
    assert("blur_passes"@[0] != "mask_dilate"@[0]);
    assert("mask_threshold"@[5] != "mask_smoothing"@[5]);
}

/// Whether `v` is the integer that a table has under a key, or the default.
pub open spec fn integer_entry(
    m: Map<Seq<char>, ParamModel>,
    key: Seq<char>,
    default: u32,
    v: u32,
) -> bool {
    &&& m.contains_key(key) ==> m[key] == ParamModel::Integer(v as i64)
    &&& !m.contains_key(key) ==> v == default
}

/// Whether `v` is the pattern of the number that a table has under a key, or the
/// default; an integer beyond the unit interval stays beyond it.
pub open spec fn number_entry(
    m: Map<Seq<char>, ParamModel>,
    key: Seq<char>,
    default: u32,
    v: u32,
) -> bool {
    &&& !m.contains_key(key) ==> v == default
    &&& m.contains_key(key) ==> match m[key] {
        ParamModel::Float(bits) => v == bits,
        ParamModel::Double { single, .. } => v == single,
        ParamModel::Integer(i) => i == 0 && v == 0u32 || i == 1 && v == 0x3F80_0000u32 || (i < 0
            || i > 1) && !(float_bits::value_at_least(v, 0u32) && float_bits::value_at_least(
            0x3F80_0000u32,
            v,
        )),
        _ => false,
    }
}

/// A table is read field by field, each under its own name and with its own default; the
/// model is required, and no other field is known.
pub proof fn law_blur_config_read(t: ParamTable, r: Result<BlurConfig, String>)
    requires
        call_ensures(BlurConfig::from_params, (RawEffectParams::Table(t),), r),
    ensures
        ({
            let m = params::entries(t);
            r matches Ok(c) ==> {
                &&& m.contains_key("model"@)
                &&& m["model"@] == ParamModel::Text(c.model@) || m["model"@]
                    == ParamModel::Datetime(c.model@)
                &&& c.model_config is Some <==> m.contains_key("model_config"@)
                &&& c.model_config matches Some(p) ==> m["model_config"@] == ParamModel::Text(p@)
                    || m["model_config"@] == ParamModel::Datetime(p@)
                &&& integer_entry(m, "blur_radius"@, 21, c.blur_radius)
                &&& integer_entry(m, "blur_passes"@, 2, c.blur_passes)
                &&& integer_entry(m, "mask_feather_radius"@, 7, c.mask_feather_radius)
                &&& integer_entry(m, "mask_dilate"@, 1, c.mask_dilate)
                &&& integer_entry(m, "fallback_threshold"@, 3, c.fallback_threshold)
                &&& number_entry(m, "mask_threshold"@, 0x3F00_0000, c.mask_threshold)
                &&& number_entry(m, "mask_smoothing"@, 0x3F26_6666, c.mask_smoothing)
                &&& forall|k: Seq<char>| #[trigger]
                    m.contains_key(k) ==> k == "model"@ || k == "model_config"@ || k
                        == "blur_radius"@ || k == "blur_passes"@ || k == "mask_threshold"@ || k
                        == "mask_smoothing"@ || k == "mask_feather_radius"@ || k == "mask_dilate"@
                        || k == "fallback_threshold"@
            }
        }),
{
}

/// A configuration is valid where it names an `.onnx` file, in any letter case, and every
/// number is in its range.
pub proof fn law_blur_config_valid(
    c: &BlurConfig,
    extension: Option<String>,
    r: Result<(), EffectError>,
)
    requires
        call_ensures(BlurConfig::validate_extension, (c, &extension), r),
    ensures
        r is Ok <==> {
            &&& c.model@.len() > 0
            &&& (extension matches Some(e) && text::lower(e@) == "onnx"@)
            &&& float_bits::value_at_least(c.mask_threshold, 0u32)
            &&& float_bits::value_at_least(0x3F80_0000u32, c.mask_threshold)
            &&& float_bits::value_at_least(c.mask_smoothing, 0u32)
            &&& float_bits::value_at_least(0x3F80_0000u32, c.mask_smoothing)
            &&& c.blur_radius <= 256
            &&& c.blur_passes <= 16
            &&& c.mask_dilate <= 32
            &&& c.mask_feather_radius <= 64
            &&& c.fallback_threshold >= 1
        },
{
}

} // verus!
