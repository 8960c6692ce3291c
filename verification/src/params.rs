//! Effect parameters: tables of named values.
//!
//! A parameter table is a [`toml::map::Map`] from names to [`ParamValue`]s.
//! Effects take floating-point parameters in single precision; a table carries
//! them as IEEE 754 bit patterns, so it can be read, split and compared without
//! floating-point arithmetic.  A number that was read from a file also keeps its
//! pattern in double precision, so that it is written back as it was.

use vstd::prelude::*;
use crate::paths;
use crate::text;

verus! {

/// One value of a parameter table.
#[derive(Debug)]
pub enum ParamValue {
    /// Text.
    Text(String),
    /// An integer.
    Integer(i64),
    /// Bit pattern of a single-precision number.
    Float(u32),
    /// A number as it is written: its bit pattern in double precision, and that of
    /// the single-precision number that effects take for it.
    Double {
        /// Single precision.
        single: u32,
        /// Double precision.
        double: u64,
    },
    /// A truth value.
    Boolean(bool),
    /// A date and time, as written.
    Datetime(String),
    /// A list of values.
    Array(Vec<ParamValue>),
    /// A nested table, in key order.
    Table(Vec<(String, ParamValue)>),
}

/// What a [`ParamValue`] stands for.
pub ghost enum ParamModel {
    /// Text.
    Text(Seq<char>),
    /// An integer.
    Integer(i64),
    /// Bit pattern of a single-precision number.
    Float(u32),
    /// Bit patterns of a number as it is written.
    Double {
        /// Single precision.
        single: u32,
        /// Double precision.
        double: u64,
    },
    /// A truth value.
    Boolean(bool),
    /// A date and time.
    Datetime(Seq<char>),
    /// A list of values.
    Array(Seq<ParamModel>),
    /// A nested table.
    Table(Seq<(Seq<char>, ParamModel)>),
}

impl ParamModel {
    /// Name of the value's type.
    pub open spec fn kind_text(self) -> Seq<char> {
        match self {
            ParamModel::Text(_) => "string"@,
            ParamModel::Integer(_) => "integer"@,
            ParamModel::Float(_) | ParamModel::Double { .. } => "float"@,
            ParamModel::Boolean(_) => "boolean"@,
            ParamModel::Datetime(_) => "datetime"@,
            ParamModel::Array(_) => "array"@,
            ParamModel::Table(_) => "table"@,
        }
    }
}

impl View for ParamValue {
    type V = ParamModel;

    open spec fn view(&self) -> ParamModel {
        self.model()
    }
}

impl ParamValue {
    /// What the value stands for.
    pub open spec fn model(&self) -> ParamModel
        decreases self,
    {
        match self {
            ParamValue::Text(s) => ParamModel::Text(s@),
            ParamValue::Integer(i) => ParamModel::Integer(*i),
            ParamValue::Float(bits) => ParamModel::Float(*bits),
            ParamValue::Double { single, double } => ParamModel::Double {
                single: *single,
                double: *double,
            },
            ParamValue::Boolean(b) => ParamModel::Boolean(*b),
            ParamValue::Datetime(s) => ParamModel::Datetime(s@),
            ParamValue::Array(v) => ParamModel::Array(
                Seq::new(
                    v@.len(),
                    |i: int|
                        if 0 <= i < v@.len() {
                            v@[i].model()
                        } else {
                            arbitrary()
                        },
                ),
            ),
            ParamValue::Table(v) => ParamModel::Table(
                Seq::new(
                    v@.len(),
                    |i: int|
                        if 0 <= i < v@.len() {
                            (v@[i].0@, v@[i].1.model())
                        } else {
                            arbitrary()
                        },
                ),
            ),
        }
    }

    /// Name of the value's type, for diagnostics.
    #[must_use]
    pub fn type_str(&self) -> (r: &'static str)
        ensures
            r@ == self@.kind_text(),
    {
        match self {
            ParamValue::Text(_) => "string",
            ParamValue::Integer(_) => "integer",
            ParamValue::Float(_) | ParamValue::Double { .. } => "float",
            ParamValue::Boolean(_) => "boolean",
            ParamValue::Datetime(_) => "datetime",
            ParamValue::Array(_) => "array",
            ParamValue::Table(_) => "table",
        }
    }
}

impl Clone for ParamValue {
    fn clone(&self) -> (r: Self)
        ensures
            r@ == self@,
        decreases self,
    {
        match self {
            ParamValue::Text(s) => ParamValue::Text(s.clone()),
            ParamValue::Integer(i) => ParamValue::Integer(*i),
            ParamValue::Float(bits) => ParamValue::Float(*bits),
            ParamValue::Double { single, double } => ParamValue::Double {
                single: *single,
                double: *double,
            },
            ParamValue::Boolean(b) => ParamValue::Boolean(*b),
            ParamValue::Datetime(s) => ParamValue::Datetime(s.clone()),
            ParamValue::Array(v) => {
                let mut out: Vec<ParamValue> = Vec::new();
                let mut i: usize = 0;
                while i < v.len()
                    invariant
                        i <= v@.len(),
                        out@.len() == i,
                        *self == ParamValue::Array(*v),
                        forall|k: int| 0 <= k < i ==> out@[k].model() == v@[k].model(),
                    decreases v@.len() - i,
                {
                    assert(decreases_to!(*self => self->Array_0));
                    assert(decreases_to!(self->Array_0 => self->Array_0@));
                    assert(decreases_to!(v@ => v@[i as int]));
                    let item = v[i].clone();
                    out.push(item);
                    i = i + 1;
                }
                let r = ParamValue::Array(out);
                assert(r.model()->Array_0 =~= self.model()->Array_0);
                r
            },
            ParamValue::Table(v) => {
                let mut out: Vec<(String, ParamValue)> = Vec::new();
                let mut i: usize = 0;
                while i < v.len()
                    invariant
                        i <= v@.len(),
                        out@.len() == i,
                        *self == ParamValue::Table(*v),
                        forall|k: int|
                            0 <= k < i ==> out@[k].1.model() == v@[k].1.model() && out@[k].0@
                                == v@[k].0@,
                    decreases v@.len() - i,
                {
                    assert(decreases_to!(*self => self->Table_0));
                    assert(decreases_to!(self->Table_0 => self->Table_0@));
                    assert(decreases_to!(v@ => v@[i as int]));
                    assert(decreases_to!(v@[i as int] => v@[i as int].1));
                    let item = v[i].1.clone();
                    out.push((v[i].0.clone(), item));
                    i = i + 1;
                }
                let r = ParamValue::Table(out);
                assert(r.model()->Table_0 =~= self.model()->Table_0);
                r
            },
        }
    }
}

/// The map type of the `toml` crate.
#[verifier::external_type_specification]
#[verifier::external_body]
#[verifier::reject_recursive_types(K)]
#[verifier::reject_recursive_types(V)]
pub struct ExTomlMap<K, V>(toml::map::Map<K, V>);

/// Named parameters of one effect.
pub type ParamTable = toml::map::Map<String, ParamValue>;

/// What a parameter table holds.
pub uninterp spec fn entries(table: toml::map::Map<String, ParamValue>) -> Map<
    Seq<char>,
    ParamModel,
>;

/// The table without entries.
pub open spec fn no_entries() -> Map<Seq<char>, ParamModel> {
    Map::empty()
}

/// The table of a list of entries; a later one replaces an earlier one of the
/// same name.
pub open spec fn table_entries(list: Seq<(Seq<char>, ParamModel)>) -> Map<Seq<char>, ParamModel>
    decreases list.len(),
{
    if list.len() == 0 {
        no_entries()
    } else {
        table_entries(list.drop_last()).insert(list.last().0, list.last().1)
    }
}

/// The first `n` items of a list, each under its name.
pub open spec fn named(names: Seq<Seq<char>>, list: Seq<ParamModel>, n: int) -> Seq<
    (Seq<char>, ParamModel),
> {
    Seq::new(n as nat, |i: int| (names[i], list[i]))
}

/// The characters of every text of a list.
pub open spec fn views(names: Seq<&str>) -> Seq<Seq<char>> {
    Seq::new(names.len(), |i: int| names[i]@)
}

/// What an optional value stands for.
pub open spec fn value_model(given: Option<&ParamValue>) -> Option<ParamModel> {
    match given {
        Some(v) => Some(v@),
        None => None,
    }
}

/// [`toml::map::Map::new`]: a table without entries.
#[verifier::external_body]
pub(crate) fn table_new() -> (r: ParamTable)
    ensures
        entries(r) == no_entries(),
{
    toml::map::Map::new()
}

/// [`toml::map::Map::insert`]: the table maps `key` to `value` afterwards and
/// is otherwise unchanged.
#[verifier::external_body]
pub(crate) fn table_insert(table: &mut ParamTable, key: String, value: ParamValue)
    ensures
        entries(*final(table)) == entries(*old(table)).insert(key@, value@),
{
    table.insert(key, value);
}

/// [`toml::map::Map::remove`]: takes the entry of `key` out of the table and
/// hands back its value; `None` when there was no such entry.
#[verifier::external_body]
pub(crate) fn table_remove(table: &mut ParamTable, key: &str) -> (r: Option<ParamValue>)
    ensures
        entries(*final(table)) == entries(*old(table)).remove(key@),
        r is Some <==> entries(*old(table)).contains_key(key@),
        r is Some ==> r->0@ == entries(*old(table))[key@],
{
    table.remove(key)
}

/// [`toml::map::Map::is_empty`]: whether the table has no entry.
#[verifier::external_body]
pub(crate) fn table_is_empty(table: &ParamTable) -> (r: bool)
    ensures
        r == (entries(*table) == no_entries()),
{
    table.is_empty()
}

/// `Clone` of [`toml::map::Map`]: a table with the same keys and a clone of
/// each value.
#[verifier::external_body]
pub(crate) fn table_clone(table: &ParamTable) -> (r: ParamTable)
    ensures
        entries(r) == entries(*table),
{
    table.clone()
}

/// The entry of `key`, if there is one.
pub open spec fn entry(m: Map<Seq<char>, ParamModel>, key: Seq<char>) -> Option<ParamModel> {
    if m.contains_key(key) {
        Some(m[key])
    } else {
        None
    }
}

/// Text that an optional value spells; none where the value is absent.
pub open spec fn text_of(v: Option<ParamModel>, key: Seq<char>) -> Result<
    Option<Seq<char>>,
    Seq<char>,
> {
    match v {
        None => Ok(None),
        Some(ParamModel::Text(s)) | Some(ParamModel::Datetime(s)) => Ok(Some(s)),
        Some(other) => Err("`"@ + key + "` must be a string, got "@ + other.kind_text()),
    }
}

/// Integer of 32 bits that an optional value spells.
pub open spec fn integer_of(v: Option<ParamModel>, key: Seq<char>, default: u32) -> Result<
    u32,
    Seq<char>,
> {
    match v {
        None => Ok(default),
        Some(ParamModel::Integer(i)) => if 0 <= i <= u32::MAX {
            Ok(i as u32)
        } else {
            Err("`"@ + key + "` is out of range: "@ + text::signed_decimal(i as int))
        },
        Some(other) => Err("`"@ + key + "` must be an integer, got "@ + other.kind_text()),
    }
}

/// What is wrong with a field, if anything is.
pub open spec fn wrong<T>(r: Result<T, Seq<char>>) -> Option<Seq<char>> {
    match r {
        Ok(_) => None,
        Err(e) => Some(e),
    }
}

/// Take the text of `key` out of a table.
pub(crate) fn take_text(table: &mut ParamTable, key: &str) -> (r: Result<Option<String>, String>)
    ensures
        entries(*final(table)) == entries(*old(table)).remove(key@),
        match r {
            Ok(v) => text_of(entry(entries(*old(table)), key@), key@) == Ok::<
                Option<Seq<char>>,
                Seq<char>,
            >(paths::string_chars(v)),
            Err(e) => text_of(entry(entries(*old(table)), key@), key@) == Err::<
                Option<Seq<char>>,
                Seq<char>,
            >(e@),
        },
{
    match table_remove(table, key) {
        None => Ok(None),
        Some(ParamValue::Text(s)) | Some(ParamValue::Datetime(s)) => Ok(Some(s)),
        Some(other) => {
            let mut reason = "`".to_owned();
            reason.append(key);
            reason.append("` must be a string, got ");
            reason.append(other.type_str());
            Err(reason)
        },
    }
}

/// Take the integer of `key` out of a table.
pub(crate) fn take_integer(table: &mut ParamTable, key: &str, default: u32) -> (r: Result<u32, String>)
    ensures
        entries(*final(table)) == entries(*old(table)).remove(key@),
        match r {
            Ok(v) => integer_of(entry(entries(*old(table)), key@), key@, default) == Ok::<
                u32,
                Seq<char>,
            >(v),
            Err(e) => integer_of(entry(entries(*old(table)), key@), key@, default) == Err::<
                u32,
                Seq<char>,
            >(e@),
        },
{
    match table_remove(table, key) {
        None => Ok(default),
        Some(ParamValue::Integer(i)) => {
            if 0 <= i && i <= u32::MAX as i64 {
                Ok(i as u32)
            } else {
                let mut reason = "`".to_owned();
                reason.append(key);
                reason.append("` is out of range: ");
                text::push_decimal_i64(&mut reason, i);
                Err(reason)
            }
        },
        Some(other) => {
            let mut reason = "`".to_owned();
            reason.append(key);
            reason.append("` must be an integer, got ");
            reason.append(other.type_str());
            Err(reason)
        },
    }
}

/// Raw parameters passed to an effect: a table, or a value of another type that
/// stands where a table was expected.
#[derive(Debug)]
pub enum RawEffectParams {
    /// A table of parameters.
    Table(toml::map::Map<String, ParamValue>),
    /// Something else.
    Value(ParamValue),
}

impl RawEffectParams {
    /// The entries, where the parameters are a table.
    pub open spec fn table(&self) -> Option<Map<Seq<char>, ParamModel>> {
        match self {
            RawEffectParams::Table(t) => Some(entries(*t)),
            RawEffectParams::Value(_) => None,
        }
    }

    /// Whether these are the parameters that `given` spells: no entry where
    /// nothing is given, the entries of a table, or a value that is none.
    pub open spec fn stands_for(&self, given: Option<ParamModel>) -> bool {
        match given {
            None => self.table() == Some(no_entries()),
            Some(ParamModel::Table(list)) => self.table() == Some(table_entries(list)),
            Some(other) => self matches RawEffectParams::Value(v) && v@ == other,
        }
    }

    /// The parameters that a value of a section spells.
    #[must_use]
    pub fn of_value(given: Option<&ParamValue>) -> (r: Self)
        ensures
            r.stands_for(value_model(given)),
    {
        match given {
            None => RawEffectParams::empty(),
            Some(value) => match value {
                ParamValue::Table(list) => {
                    let mut table = table_new();
                    let mut i: usize = 0;
                    let ghost names = value@->Table_0;
                    proof {
                        assert(names.take(0) =~= Seq::empty());
                    }
                    while i < list.len()
                        invariant
                            i <= list@.len(),
                            *value == ParamValue::Table(*list),
                            names == value@->Table_0,
                            names.len() == list@.len(),
                            entries(table) == table_entries(names.take(i as int)),
                        decreases list@.len() - i,
                    {
                        table_insert(&mut table, list[i].0.clone(), list[i].1.clone());
                        proof {
                            let next = names.take(i + 1);
                            assert(next.drop_last() =~= names.take(i as int));
                            assert(next.last() == (list@[i as int].0@, list@[i as int].1@));
                        }
                        i = i + 1;
                    }
                    proof {
                        assert(names.take(i as int) =~= names);
                    }
                    RawEffectParams::Table(table)
                },
                _ => RawEffectParams::Value(value.clone()),
            },
        }
    }

    /// What the parameters have under the names of an effect's fields: the entries
    /// of a table, or the items of a list, which go by the order of the names.
    pub open spec fn fields(&self, names: Seq<Seq<char>>) -> Result<
        Map<Seq<char>, ParamModel>,
        Seq<char>,
    > {
        match self {
            RawEffectParams::Table(t) => Ok(entries(*t)),
            RawEffectParams::Value(v) => match v@ {
                ParamModel::Array(list) => if list.len() > names.len() {
                    Err(
                        "invalid length "@ + text::decimal(list.len())
                            + ", expected fewer elements in array"@,
                    )
                } else {
                    Ok(table_entries(named(names, list, list.len() as int)))
                },
                other => Err("expected a table, got "@ + other.kind_text()),
            },
        }
    }

    /// The entries under the names of an effect's fields.
    pub fn into_fields(self, names: &[&str]) -> (r: Result<ParamTable, String>)
        ensures
            match r {
                Ok(t) => self.fields(views(names@)) == Ok::<
                    Map<Seq<char>, ParamModel>,
                    Seq<char>,
                >(entries(t)),
                Err(e) => self.fields(views(names@)) == Err::<
                    Map<Seq<char>, ParamModel>,
                    Seq<char>,
                >(e@),
            },
    {
        let value = match self {
            RawEffectParams::Table(t) => {
                return Ok(t);
            },
            RawEffectParams::Value(v) => v,
        };
        match &value {
            ParamValue::Array(list) => {
                let ghost items = value@->Array_0;
                if list.len() > names.len() {
                    let mut reason = "invalid length ".to_owned();
                    text::push_decimal(&mut reason, list.len() as u64);
                    reason.append(", expected fewer elements in array");
                    return Err(reason);
                }
                let mut table = table_new();
                let mut i: usize = 0;
                while i < list.len()
                    invariant
                        i <= list@.len() <= names@.len(),
                        value == ParamValue::Array(*list),
                        items == value@->Array_0,
                        items.len() == list@.len(),
                        entries(table) == table_entries(named(views(names@), items, i as int)),
                    decreases list@.len() - i,
                {
                    table_insert(&mut table, names[i].to_owned(), list[i].clone());
                    proof {
                        let next = named(views(names@), items, i + 1);
                        assert(next.drop_last() =~= named(views(names@), items, i as int));
                        assert(next.last() == (names@[i as int]@, list@[i as int]@));
                    }
                    i = i + 1;
                }
                Ok(table)
            },
            _ => {
                let mut reason = "expected a table, got ".to_owned();
                reason.append(value.type_str());
                Err(reason)
            },
        }
    }

    /// Parameters without any entry.
    #[must_use]
    pub fn empty() -> (r: Self)
        ensures
            r.table() == Some(no_entries()),
    {
        RawEffectParams::Table(table_new())
    }
}

/// The entries of a list of pairs with different names are the pairs.
proof fn lemma_table_entries(list: Seq<(Seq<char>, ParamModel)>)
    requires
        forall|i: int, j: int|
            0 <= i < j < list.len() ==> (#[trigger] list[i]).0 != (#[trigger] list[j]).0,
    ensures
        forall|i: int|
            0 <= i < list.len() ==> table_entries(list).contains_key((#[trigger] list[i]).0)
                && table_entries(list)[list[i].0] == list[i].1,
        forall|k: Seq<char>| #[trigger]
            table_entries(list).contains_key(k) ==> exists|i: int|
                0 <= i < list.len() && (#[trigger] list[i]).0 == k,
    decreases list.len(),
{
    if list.len() > 0 {
        let fewer = list.drop_last();
        assert forall|i: int, j: int| 0 <= i < j < fewer.len() implies (#[trigger] fewer[i]).0 != (
        #[trigger] fewer[j]).0 by {
            assert(list[i].0 != list[j].0);
        }
        lemma_table_entries(fewer);
        let last = list.len() - 1;
        assert forall|i: int| 0 <= i < list.len() implies table_entries(list).contains_key(
            (#[trigger] list[i]).0,
        ) && table_entries(list)[list[i].0] == list[i].1 by {
            if i < last {
                assert(fewer[i] == list[i]);
                assert(list[i].0 != list[last].0);
            }
        }
        assert forall|k: Seq<char>| #[trigger] table_entries(list).contains_key(k) implies exists|
            i: int,
        |
            0 <= i < list.len() && (#[trigger] list[i]).0 == k by {
            if table_entries(fewer).contains_key(k) {
                let i = choose|i: int| 0 <= i < fewer.len() && (#[trigger] fewer[i]).0 == k;
                assert(list[i] == fewer[i]);
            } else {
                assert(list[last].0 == k);
            }
        }
    }
}

/// The items of a list go to the fields by their order; a list of more items than there
/// are fields is refused, and so is anything that is neither a table nor a list.
pub proof fn law_list_by_position(
    p: RawEffectParams,
    names: &[&str],
    r: Result<ParamTable, String>,
    i: int,
)
    requires
        call_ensures(RawEffectParams::into_fields, (p, names), r),
        forall|a: int, b: int|
            0 <= a < b < names@.len() ==> (#[trigger] names@[a])@ != (#[trigger] names@[b])@,
    ensures
        p matches RawEffectParams::Table(t) ==> (r matches Ok(m) && entries(m) == entries(t)),
        p matches RawEffectParams::Value(v) ==> match v@ {
            ParamModel::Array(list) => {
                &&& r is Ok <==> list.len() <= names@.len()
                &&& r matches Ok(m) ==> 0 <= i < names@.len() ==> entry(entries(m), names@[i]@) == (
                if i < list.len() {
                    Some(list[i])
                } else {
                    None
                })
            },
            _ => r is Err,
        },
{
    if let RawEffectParams::Value(v) = p {
        if let ParamModel::Array(list) = v@ {
            if r is Ok {
                let pairs = named(views(names@), list, list.len() as int);
                assert forall|a: int, b: int| 0 <= a < b < pairs.len() implies (
                #[trigger] pairs[a]).0 != (#[trigger] pairs[b]).0 by {
                    assert(pairs[a].0 == names@[a]@ && pairs[b].0 == names@[b]@);
                    assert(names@[a]@ != names@[b]@);
                }
                lemma_table_entries(pairs);
                if 0 <= i < names@.len() {
                    if i < list.len() {
                        assert(pairs[i] == (names@[i]@, list[i]));
                    } else if table_entries(pairs).contains_key(names@[i]@) {
                        let k = choose|k: int|
                            0 <= k < pairs.len() && (#[trigger] pairs[k]).0 == names@[i]@;
                        assert(names@[k]@ != names@[i]@);
                    }
                }
            }
        }
    }
}

/// What a section has for an effect reaches it as it is: a table with the same entries,
/// another value as that value, and a table without entries where there is nothing.
pub proof fn law_params_of_value(given: Option<&ParamValue>, r: RawEffectParams, i: int)
    requires
        call_ensures(RawEffectParams::of_value, (given,), r),
    ensures
        given is None ==> r.table() == Some(Map::<Seq<char>, ParamModel>::empty()),
        given matches Some(v) ==> match v@ {
            ParamModel::Table(list) => (forall|a: int, b: int|
                0 <= a < b < list.len() ==> (#[trigger] list[a]).0 != (#[trigger] list[b]).0) ==> 0
                <= i < list.len() ==> r.table() is Some && entry(r.table()->0, list[i].0) == Some(
                list[i].1,
            ),
            other => r matches RawEffectParams::Value(w) && w@ == other,
        },
{
    if let Some(v) = given {
        if let ParamModel::Table(list) = v@ {
            if forall|a: int, b: int|
                0 <= a < b < list.len() ==> (#[trigger] list[a]).0 != (#[trigger] list[b]).0 {
                lemma_table_entries(list);
                if 0 <= i < list.len() {
                    assert(table_entries(list).contains_key(list[i].0));
                }
            }
        }
    }
}

} // verus!
