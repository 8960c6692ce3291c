//! Built-in mask effects.
//!
//! Effects work on the mask plane in place; resizing the mask between model and
//! frame resolution is the composite's business.

use vstd::prelude::*;
use crate::context::EffectState;
use crate::error::EffectError;
use crate::float_bits;
use crate::metadata;
use crate::metadata::ParamDescriptor;
use crate::params;
use crate::params::{ParamModel, ParamValue, RawEffectParams};
use crate::text;

pub mod dilate;
pub mod feather;
pub mod invert;
pub mod largest_blob;
pub mod laws;
pub mod passthrough;
pub mod registry;
pub mod smooth_temporal;
pub mod threshold;

verus! {

/// Outcome of a configuration: refused with `reason` when there is one.
pub open spec fn configured(name: Seq<char>, reason: Option<Seq<char>>, r: Result<(), EffectError>) -> bool {
    match reason {
        None => r is Ok,
        Some(reason) => r matches Err(e) && (e matches EffectError::InvalidConfig {
            name: n,
            reason: t,
            hint,
        } && n@ == name && t@ == reason && hint is None),
    }
}

/// Whether an effect with one number of the unit interval may go from `s` to `t`
/// when it takes `params`, with the outcome `r`: a refusal changes nothing.
pub open spec fn takes_unit(
    name: Seq<char>,
    key: Seq<char>,
    default: u32,
    s: EffectState,
    params: RawEffectParams,
    t: EffectState,
    r: Result<(), EffectError>,
) -> bool {
    match unit_field(params, key, default) {
        Ok(v) => configured(name, None, r) && t == (EffectState { settings: seq![v], ..s }),
        Err(reason) => configured(name, Some(reason), r) && t == s,
    }
}

/// Whether an effect with one integer may go from `s` to `t` when it takes
/// `params`, which it refuses for `refusal` if there is a reason, with the outcome
/// `r`: a refusal changes nothing.
pub open spec fn takes_integer(
    name: Seq<char>,
    key: Seq<char>,
    default: u32,
    refusal: Option<Seq<char>>,
    s: EffectState,
    params: RawEffectParams,
    t: EffectState,
    r: Result<(), EffectError>,
) -> bool {
    &&& configured(name, refusal, r)
    &&& t == (if refusal is None {
        EffectState { settings: seq![integer_field(params, key, default)->Ok_0], ..s }
    } else {
        s
    })
}

/// Whether an operation succeeds and changes nothing.
pub open spec fn unchanged(s: EffectState, t: EffectState, r: Result<(), EffectError>) -> bool {
    r is Ok && t == s
}

/// Refusal of a configuration without a hint.
pub(crate) fn invalid_config(name: &str, reason: String) -> (r: EffectError)
    ensures
        r matches EffectError::InvalidConfig { name: n, reason: t, hint } && n@ == name@ && t
            == reason && hint is None,
{
    EffectError::invalid_config(name, reason, None)
}

/// Value of the one parameter `key` that a table may have, or `default` when
/// it is absent: an integer of 32 bits.
pub open spec fn integer_field(params: RawEffectParams, key: Seq<char>, default: u32) -> Result<
    u32,
    Seq<char>,
> {
    match params.fields(seq![key]) {
        Err(e) => Err(e),
        Ok(m) => {
            if m.remove(key) != params::no_entries() {
                Err("unknown field, expected `"@ + key + "`"@)
            } else if !m.contains_key(key) {
                Ok(default)
            } else {
                match m[key] {
                    ParamModel::Integer(i) => if 0 <= i <= u32::MAX {
                        Ok(i as u32)
                    } else {
                        Err("`"@ + key + "` is out of range: "@ + text::signed_decimal(i as int))
                    },
                    other => Err("`"@ + key + "` must be an integer, got "@ + other.kind_text()),
                }
            }
        },
    }
}

/// A bit pattern, if it is one of the unit interval.
pub open spec fn in_unit_or(bits: u32, key: Seq<char>) -> Result<u32, Seq<char>> {
    if float_bits::in_unit(bits) {
        Ok(bits)
    } else {
        Err(key + " must be in [0,1]"@)
    }
}

/// Value of the one parameter `key` that a table may have, or `default` when
/// it is absent: the bit pattern of a number in the unit interval.
pub open spec fn unit_field(params: RawEffectParams, key: Seq<char>, default: u32) -> Result<
    u32,
    Seq<char>,
> {
    match params.fields(seq![key]) {
        Err(e) => Err(e),
        Ok(m) => {
            if m.remove(key) != params::no_entries() {
                Err("unknown field, expected `"@ + key + "`"@)
            } else if !m.contains_key(key) {
                Ok(default)
            } else {
                match m[key] {
                    ParamModel::Float(bits) => in_unit_or(bits, key),
                    ParamModel::Double { single, .. } => in_unit_or(single, key),
                    ParamModel::Integer(i) => if i == 0 {
                        Ok(float_bits::ZERO)
                    } else if i == 1 {
                        Ok(float_bits::ONE)
                    } else {
                        Err(key + " must be in [0,1]"@)
                    },
                    other => Err("`"@ + key + "` must be a number, got "@ + other.kind_text()),
                }
            }
        },
    }
}

/// Take the one entry `key` out of `params`.
fn take_only(params: RawEffectParams, key: &str) -> (r: Result<Option<ParamValue>, String>)
    ensures
        match params.fields(seq![key@]) {
            Err(reason) => r matches Err(e) && e@ == reason,
            Ok(m) => {
                if m.remove(key@) != params::no_entries() {
                    r matches Err(e) && e@ == "unknown field, expected `"@ + key@ + "`"@
                } else {
                    match r {
                        Ok(Some(v)) => m.contains_key(key@) && m[key@] == v@,
                        Ok(None) => !m.contains_key(key@),
                        Err(_) => false,
                    }
                }
            },
        },
{
    let names = [key];
    assert(params::views(names@) =~= seq![key@]);
    let mut table = match params.into_fields(&names) {
        Ok(t) => t,
        Err(reason) => {
            return Err(reason);
        },
    };
    let value = params::table_remove(&mut table, key);
    if !params::table_is_empty(&table) {
        let mut reason = "unknown field, expected `".to_owned();
        reason.append(key);
        reason.append("`");
        return Err(reason);
    }
    Ok(value)
}

/// Read [`integer_field`] of `params`.
pub(crate) fn read_integer(params: RawEffectParams, key: &str, default: u32) -> (r: Result<
    u32,
    String,
>)
    ensures
        match r {
            Ok(v) => integer_field(params, key@, default) == Ok::<u32, Seq<char>>(v),
            Err(e) => integer_field(params, key@, default) == Err::<u32, Seq<char>>(e@),
        },
{
    let value = match take_only(params, key) {
        Ok(Some(v)) => v,
        Ok(None) => {
            return Ok(default);
        },
        Err(e) => {
            return Err(e);
        },
    };
    match value {
        ParamValue::Integer(i) => {
            if 0 <= i && i <= u32::MAX as i64 {
                Ok(i as u32)
            } else {
                let mut reason = "`".to_owned();
                reason.append(key);
                reason.append("` is out of range: ");
                text::push_decimal_i64(&mut reason, i);
                Err(reason)
            }
        },
        other => {
            let mut reason = "`".to_owned();
            reason.append(key);
            reason.append("` must be an integer, got ");
            reason.append(other.type_str());
            Err(reason)
        },
    }
}

/// Read [`unit_field`] of `params`.
pub(crate) fn read_unit(params: RawEffectParams, key: &str, default: u32) -> (r: Result<
    u32,
    String,
>)
    ensures
        match r {
            Ok(v) => unit_field(params, key@, default) == Ok::<u32, Seq<char>>(v),
            Err(e) => unit_field(params, key@, default) == Err::<u32, Seq<char>>(e@),
        },
{
    let value = match take_only(params, key) {
        Ok(Some(v)) => v,
        Ok(None) => {
            return Ok(default);
        },
        Err(e) => {
            return Err(e);
        },
    };
    let bits: u32 = match value {
        ParamValue::Float(bits) => bits,
        ParamValue::Double { single, .. } => single,
        ParamValue::Integer(i) => if i == 0 {
            float_bits::ZERO
        } else if i == 1 {
            float_bits::ONE
        } else {
            float_bits::INFINITY
        },
        other => {
            let mut reason = "`".to_owned();
            reason.append(key);
            reason.append("` must be a number, got ");
            reason.append(other.type_str());
            return Err(reason);
        },
    };
    if float_bits::is_in_unit(bits) {
        Ok(bits)
    } else {
        let mut reason = key.to_owned();
        reason.append(" must be in [0,1]");
        Err(reason)
    }
}

/// The defaults that an effect with one number of the unit interval declares are
/// accepted, and give the declared number.
pub proof fn law_unit_default_accepted(
    fields: Seq<ParamDescriptor>,
    params: RawEffectParams,
    key: Seq<char>,
    default: u32,
)
    requires
        fields.len() == 1,
        fields[0].name@ == key,
        fields[0].kind.default_value() == Some(ParamModel::Float(default)),
        float_bits::in_unit(default),
        params.table() == Some(metadata::default_entries(fields)),
    ensures
        unit_field(params, key, default) == Ok::<u32, Seq<char>>(default),
{
    lemma_one_default(fields, key);
}

/// The defaults that an effect with one integer declares are accepted, and give
/// the declared integer.
pub proof fn law_integer_default_accepted(
    fields: Seq<ParamDescriptor>,
    params: RawEffectParams,
    key: Seq<char>,
    default: u32,
)
    requires
        fields.len() == 1,
        fields[0].name@ == key,
        fields[0].kind.default_value() == Some(ParamModel::Integer(default as i64)),
        params.table() == Some(metadata::default_entries(fields)),
    ensures
        integer_field(params, key, default) == Ok::<u32, Seq<char>>(default),
{
    lemma_one_default(fields, key);
}

/// The defaults of one parameter.
proof fn lemma_one_default(fields: Seq<ParamDescriptor>, key: Seq<char>)
    requires
        fields.len() == 1,
        fields[0].name@ == key,
        fields[0].kind.default_value() is Some,
    ensures
        metadata::default_entries(fields).contains_key(key),
        metadata::default_entries(fields)[key] == fields[0].kind.default_value()->0,
        metadata::default_entries(fields).remove(key) == params::no_entries(),
{
    reveal_with_fuel(metadata::default_entries, 2);
    assert(fields.drop_last() =~= Seq::empty());
    assert(metadata::default_entries(fields).remove(key) =~= params::no_entries());
}

} // verus!
