//! The vocabulary of the control socket: commands, responses and the path
//! syntax of the `set` command.
//!
//! One request and one response per line, in JSON.  The JSON text itself is read
//! and written by the program around this library.

use vstd::prelude::*;
use crate::paths;
use crate::plane::SubchainKind;
use crate::text;

verus! {

/// A JSON value.
#[derive(Debug, PartialEq)]
pub enum JsonValue {
    /// Null.
    Null,
    /// A truth value.
    Boolean(bool),
    /// A number that a signed integer holds.
    Integer(i64),
    /// A number that only an unsigned integer holds.
    Unsigned(u64),
    /// Bit pattern of a double-precision number.
    Float(u64),
    /// Text.
    Text(String),
    /// A list of values.
    Array(Vec<JsonValue>),
    /// Named values, in order.
    Object(Vec<(String, JsonValue)>),
}

/// What a [`JsonValue`] stands for.
pub ghost enum JsonModel {
    /// Null.
    Null,
    /// A truth value.
    Boolean(bool),
    /// A number that a signed integer holds.
    Integer(i64),
    /// A number that only an unsigned integer holds.
    Unsigned(u64),
    /// Bit pattern of a double-precision number.
    Float(u64),
    /// Text.
    Text(Seq<char>),
    /// A list of values.
    Array(Seq<JsonModel>),
    /// Named values, in order.
    Object(Seq<(Seq<char>, JsonModel)>),
}

impl View for JsonValue {
    type V = JsonModel;

    open spec fn view(&self) -> JsonModel {
        self.model()
    }
}

impl JsonValue {
    /// What the value stands for.
    pub open spec fn model(&self) -> JsonModel
        decreases self,
    {
        match self {
            JsonValue::Text(s) => JsonModel::Text(s@),
            JsonValue::Null => JsonModel::Null,
            JsonValue::Integer(i) => JsonModel::Integer(*i),
            JsonValue::Unsigned(n) => JsonModel::Unsigned(*n),
            JsonValue::Float(bits) => JsonModel::Float(*bits),
            JsonValue::Boolean(b) => JsonModel::Boolean(*b),
            JsonValue::Array(v) => JsonModel::Array(
                Seq::new(
                    v@.len(),
                    |i: int|
                        if 0 <= i < v@.len() {
                            v@[i].model()
                        } else {
                            arbitrary()
                        },
                ),
            ),
            JsonValue::Object(v) => JsonModel::Object(
                Seq::new(
                    v@.len(),
                    |i: int|
                        if 0 <= i < v@.len() {
                            (v@[i].0@, v@[i].1.model())
                        } else {
                            arbitrary()
                        },
                ),
            ),
        }
    }
}

impl Clone for JsonValue {
    fn clone(&self) -> (r: Self)
        ensures
            r@ == self@,
        decreases self,
    {
        match self {
            JsonValue::Text(s) => JsonValue::Text(s.clone()),
            JsonValue::Null => JsonValue::Null,
            JsonValue::Integer(i) => JsonValue::Integer(*i),
            JsonValue::Unsigned(n) => JsonValue::Unsigned(*n),
            JsonValue::Float(bits) => JsonValue::Float(*bits),
            JsonValue::Boolean(b) => JsonValue::Boolean(*b),
            JsonValue::Array(v) => {
                let mut out: Vec<JsonValue> = Vec::new();
                let mut i: usize = 0;
                while i < v.len()
                    invariant
                        i <= v@.len(),
                        out@.len() == i,
                        *self == JsonValue::Array(*v),
                        forall|k: int| 0 <= k < i ==> out@[k].model() == v@[k].model(),
                    decreases v@.len() - i,
                {
                    assert(decreases_to!(*self => self->Array_0));
                    assert(decreases_to!(self->Array_0 => self->Array_0@));
                    assert(decreases_to!(v@ => v@[i as int]));
                    let item = v[i].clone();
                    out.push(item);
                    i = i + 1;
                }
                let r = JsonValue::Array(out);
                assert(r.model()->Array_0 =~= self.model()->Array_0);
                r
            },
            JsonValue::Object(v) => {
                let mut out: Vec<(String, JsonValue)> = Vec::new();
                let mut i: usize = 0;
                while i < v.len()
                    invariant
                        i <= v@.len(),
                        out@.len() == i,
                        *self == JsonValue::Object(*v),
                        forall|k: int|
                            0 <= k < i ==> out@[k].1.model() == v@[k].1.model() && out@[k].0@
                                == v@[k].0@,
                    decreases v@.len() - i,
                {
                    assert(decreases_to!(*self => self->Object_0));
                    assert(decreases_to!(self->Object_0 => self->Object_0@));
                    assert(decreases_to!(v@ => v@[i as int]));
                    assert(decreases_to!(v@[i as int] => v@[i as int].1));
                    let item = v[i].1.clone();
                    out.push((v[i].0.clone(), item));
                    i = i + 1;
                }
                let r = JsonValue::Object(out);
                assert(r.model()->Object_0 =~= self.model()->Object_0);
                r
            },
        }
    }
}

/// Commands of the control socket.
#[derive(Debug, Clone, PartialEq)]
#[non_exhaustive]
pub enum Command {
    /// List the names of the presets.
    ListPresets,
    /// Name the active preset.
    CurrentPreset,
    /// List the effects of each sub-chain, with their descriptions.
    ListEffects,
    /// Show the active preset, or what a dotted path leads to in it.
    GetConfig {
        /// Dotted path into the active preset; the whole of it when absent.
        path: Option<String>,
    },
    /// Activate a preset.
    SetPreset {
        /// Name of the preset.
        name: String,
    },
    /// Change one field.
    SetField {
        /// `<section>.<effect>.<field>`.
        path: String,
        /// The new value.
        value: JsonValue,
    },
    /// Replace the chain of a sub-section.
    SetChain {
        /// The sub-section.
        section: SubchainKind,
        /// Effect names, in order.
        chain: Vec<String>,
    },
    /// Read the configuration again and apply the active preset.
    Reload,
}

/// Answer to a command.
#[derive(Debug, Clone, PartialEq)]
#[non_exhaustive]
pub enum Response {
    /// Success.
    Success {
        /// Payload, null where the command has none.
        data: JsonValue,
    },
    /// Failure.
    Failure {
        /// One-line reason.
        error: String,
        /// How to fix it.
        hint: Option<String>,
    },
}

impl Response {
    /// Success without a payload.
    #[must_use]
    pub fn ok() -> (r: Self)
        ensures
            r matches Response::Success { data } && data == JsonValue::Null,
    {
        Response::Success { data: JsonValue::Null }
    }

    /// Success with a payload.
    #[must_use]
    pub fn ok_with(data: JsonValue) -> (r: Self)
        ensures
            r == (Response::Success { data }),
    {
        Response::Success { data }
    }

    /// Failure for a reason.
    #[must_use]
    pub fn err(error: &str, hint: Option<String>) -> (r: Self)
        ensures
            r matches Response::Failure { error: e, hint: h } && e@ == error@ && h == hint,
    {
        Response::Failure { error: error.to_owned(), hint }
    }
}

/// A parsed `<section>.<effect>.<field>` path.
#[derive(Debug, Clone, PartialEq)]
pub struct SetPath {
    /// The sub-chain.
    pub section: SubchainKind,
    /// The effect in it.
    pub effect: String,
    /// The field of the effect's parameters.
    pub field: String,
}

/// Whether one of the three components is empty.
pub open spec fn has_gap(parts: Seq<Seq<char>>) -> bool {
    parts[0].len() == 0 || parts[1].len() == 0 || parts[2].len() == 0
}

/// Why a path is refused, if it is.
pub open spec fn path_complaint(path: Seq<char>) -> Option<Seq<char>> {
    let parts = text::pieces(path, '.');
    if parts.len() != 3 {
        Some(
            "expected `<section>.<effect>.<field>`, got '"@ + path + "' ("@ + text::decimal(
                parts.len(),
            ) + " components)"@,
        )
    } else if has_gap(parts) {
        Some("empty component in path '"@ + path + "'"@)
    } else if SubchainKind::of_wire(parts[0]) is None {
        Some(SubchainKind::unknown(parts[0]) + " in path '"@ + path + "'"@)
    } else {
        None
    }
}

/// Read a path of the `set` command: exactly three components, none empty, the
/// first a sub-chain.
pub fn parse_set_path(path: &str) -> (r: Result<SetPath, String>)
    ensures
        match r {
            Ok(p) => path_complaint(path@) is None && ({
                let parts = text::pieces(path@, '.');
                &&& SubchainKind::of_wire(parts[0]) == Some(p.section)
                &&& p.effect@ == parts[1]
                &&& p.field@ == parts[2]
            }),
            Err(reason) => path_complaint(path@) == Some(reason@),
        },
{
    let mut parts = text::split(path, '.');
    let ghost names = text::pieces(path@, '.');
    assert(text::views(parts@) == names);
    if parts.len() != 3 {
        let mut out = "expected `<section>.<effect>.<field>`, got '".to_owned();
        out.append(path);
        out.append("' (");
        text::push_decimal(&mut out, parts.len() as u64);
        out.append(" components)");
        return Err(out);
    }
    assert(parts@[0]@ == names[0] && parts@[1]@ == names[1] && parts@[2]@ == names[2]);
    if !paths::has_text(parts[0].as_str()) || !paths::has_text(parts[1].as_str())
        || !paths::has_text(parts[2].as_str()) {
        let mut out = "empty component in path '".to_owned();
        out.append(path);
        out.append("'");
        return Err(out);
    }
    match SubchainKind::parse(parts[0].as_str()) {
        Ok(section) => {
            let effect = parts[1].clone();
            let field = parts[2].clone();
            Ok(SetPath { section, effect, field })
        },
        Err(reason) => {
            let mut out = reason;
            out.append(" in path '");
            out.append(path);
            out.append("'");
            Err(out)
        },
    }
}

/// `a`, `b` and `c` with dots between.
pub open spec fn dotted(a: Seq<char>, b: Seq<char>, c: Seq<char>) -> Seq<char> {
    a.push('.') + b.push('.') + c
}

/// Reading the path of a section, an effect and a field gives them back,
/// whatever the effect and the field are, unless one is empty or has a dot.
pub proof fn law_set_path_round_trip(section: SubchainKind, effect: Seq<char>, field: Seq<char>)
    requires
        effect.len() > 0,
        field.len() > 0,
        !effect.contains('.'),
        !field.contains('.'),
    ensures
        path_complaint(dotted(section.wire(), effect, field)) is None,
        text::pieces(dotted(section.wire(), effect, field), '.') == seq![
            section.wire(),
            effect,
            field,
        ],
        SubchainKind::of_wire(section.wire()) == Some(section),
{
    let a = section.wire();
    let s = dotted(a, effect, field);
    SubchainKind::law_wire_round_trip(section);
    reveal_strlit("mask");
    reveal_strlit("background");
    reveal_strlit("foreground");
    reveal_strlit("post");
    assert(a.len() > 0);
    let p = a.len() as int;
    let q = p + 1 + effect.len();
    assert forall|i: int| 0 <= i < p implies s[i] != '.' by {
        assert(s[i] == a[i]);
    }
    assert forall|i: int| p + 1 <= i < q implies s[i] != '.' by {
        assert(s[i] == effect[i - p - 1]);
        assert(effect.contains(effect[i - p - 1]));
    }
    assert forall|i: int| q + 1 <= i < s.len() implies s[i] != '.' by {
        assert(s[i] == field[i - q - 1]);
        assert(field.contains(field[i - q - 1]));
    }
    text::lemma_next_sep(s, '.', 0, p);
    text::lemma_next_sep(s, '.', p + 1, q);
    text::lemma_next_sep(s, '.', q + 1, s.len() as int);
    assert(s.subrange(0, p) =~= a);
    assert(s.subrange(p + 1, q) =~= effect);
    assert(s.subrange(q + 1, s.len() as int) =~= field);
    reveal_with_fuel(text::pieces_from, 4);
    assert(text::pieces(s, '.') =~= seq![a, effect, field]);
}

/// The socket path for a runtime directory.
pub open spec fn socket_path_of(xdg: Option<Seq<char>>) -> Seq<char> {
    match xdg {
        Some(dir) if dir.len() > 0 => paths::joined(dir, "fluxframe.sock"@),
        _ => "/tmp/fluxframe.sock"@,
    }
}

/// The socket path for the value of `$XDG_RUNTIME_DIR`.
#[must_use]
pub fn resolve_socket_path(xdg: Option<&str>) -> (r: String)
    ensures
        r@ == socket_path_of(paths::chars(xdg)),
{
    match xdg {
        Some(dir) => {
            if paths::has_text(dir) {
                return paths::join(dir, "fluxframe.sock");
            }
        },
        None => {},
    }
    "/tmp/fluxframe.sock".to_owned()
}

/// A path that is read is its section, its effect and its field with dots between, none
/// of them empty and none with a dot in it.
pub proof fn law_set_path_read(path: &str, r: Result<SetPath, String>)
    requires
        call_ensures(parse_set_path, (path,), r),
    ensures
        r matches Ok(p) ==> {
            &&& p.effect@.len() > 0 && !p.effect@.contains('.')
            &&& p.field@.len() > 0 && !p.field@.contains('.')
            &&& path@ == dotted(
                match p.section {
                    SubchainKind::Mask => "mask"@,
                    SubchainKind::Background => "background"@,
                    SubchainKind::Foreground => "foreground"@,
                    SubchainKind::Post => "post"@,
                },
                p.effect@,
                p.field@,
            )
        },
{
    if let Ok(p) = r {
        let parts = text::pieces(path@, '.');
        text::lemma_pieces_from(path@, '.', 0);
        assert(path@.skip(0) =~= path@);
        assert(!parts[1].contains('.') && !parts[2].contains('.'));
        let rest = parts.drop_first();
        assert(rest.len() == 2 && rest[0] == parts[1] && rest[1] == parts[2]);
        assert(rest.drop_first().len() == 1 && rest.drop_first()[0] == parts[2]);
        assert(text::rejoined(rest.drop_first(), '.') == parts[2]);
        assert(text::rejoined(rest, '.') == parts[1].push('.') + parts[2]);
        assert(text::rejoined(parts, '.') == parts[0].push('.') + (parts[1].push('.') + parts[2]));
        assert(path@ =~= dotted(parts[0], parts[1], parts[2]));
    }
}

/// Every path of a section, an effect and a field is read as these.
pub proof fn law_set_path_accepted(
    path: &str,
    r: Result<SetPath, String>,
    section: SubchainKind,
    effect: Seq<char>,
    field: Seq<char>,
)
    requires
        call_ensures(parse_set_path, (path,), r),
        path@ == dotted(section.wire(), effect, field),
        effect.len() > 0,
        field.len() > 0,
        !effect.contains('.'),
        !field.contains('.'),
    ensures
        r matches Ok(p) && p.section == section && p.effect@ == effect && p.field@ == field,
{
    law_set_path_round_trip(section, effect, field);
}

/// The socket lies in the runtime directory where there is one, and among the temporary
/// files otherwise.
pub proof fn law_socket_path(xdg: Option<&str>, r: String)
    requires
        call_ensures(resolve_socket_path, (xdg,), r),
    ensures
        xdg is None || xdg->0@.len() == 0 ==> r@ == "/tmp/fluxframe.sock"@,
        xdg is Some && xdg->0@.len() > 0 && xdg->0@.last() != '/' ==> r@ == xdg->0@ + "/"@
            + "fluxframe.sock"@,
        xdg is Some && xdg->0@.len() > 0 && xdg->0@.last() == '/' ==> r@ == xdg->0@
            + "fluxframe.sock"@,
{
    reveal_strlit("fluxframe.sock");
    reveal_strlit("/");
    if xdg is Some {
        assert(r@ =~= r@);
        assert(xdg->0@ + "/"@ =~= xdg->0@.push('/'));
    }
}

} // verus!
