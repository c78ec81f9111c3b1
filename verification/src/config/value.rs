//! Untyped values: what an operator writes in TOML, and the JSON it is
//! served as.

use crate::text_map::TextMap;
use vstd::prelude::*;
use vstd::string::*;

verus! {

/// An IEEE double, carried by its bits.
#[derive(Debug, Clone, Copy, PartialEq, Eq, Structural)]
pub struct Float64 {
    pub bits: u64,
}

/// An IEEE single, carried by its bits.
#[derive(Debug, Clone, Copy, PartialEq, Eq, Structural)]
pub struct Float32 {
    pub bits: u32,
}

impl Float64 {
    /// Whether the double is a number: its exponent is not all ones.
    pub open spec fn finite(self) -> bool {
        (self.bits as int / 0x10_0000_0000_0000) % 0x800 != 0x7ff
    }

    /// Whether the double is a number.
    pub fn is_finite(self) -> (r: bool)
        ensures
            r == self.finite(),
    {
        (self.bits / 0x10_0000_0000_0000) % 0x800 != 0x7ff
    }
}

/// A TOML value. A date is carried as it is written.
#[derive(Debug)]
pub enum TomlValue {
    String(String),
    Integer(i64),
    Float(Float64),
    Boolean(bool),
    Array(Vec<TomlValue>),
    Table(Vec<(String, TomlValue)>),
    Datetime(String),
}

/// A JSON value. An integer beyond the signed range is `Unsigned`.
#[derive(Debug)]
pub enum JsonValue {
    Null,
    Bool(bool),
    Integer(i64),
    Unsigned(u64),
    Float(Float64),
    String(String),
    Array(Vec<JsonValue>),
    Object(Vec<(String, JsonValue)>),
}

/// Whether two TOML values are the same.
pub open spec fn same_toml(a: TomlValue, b: TomlValue) -> bool
    decreases a,
{
    match (a, b) {
        (TomlValue::String(x), TomlValue::String(y)) => x@ == y@,
        (TomlValue::Integer(x), TomlValue::Integer(y)) => x == y,
        (TomlValue::Float(x), TomlValue::Float(y)) => x == y,
        (TomlValue::Boolean(x), TomlValue::Boolean(y)) => x == y,
        (TomlValue::Datetime(x), TomlValue::Datetime(y)) => x@ == y@,
        (TomlValue::Array(x), TomlValue::Array(y)) => {
            &&& x@.len() == y@.len()
            &&& forall|i: int| 0 <= i < x@.len() ==> same_toml(#[trigger] x@[i], y@[i])
        },
        (TomlValue::Table(x), TomlValue::Table(y)) => {
            &&& x@.len() == y@.len()
            &&& forall|i: int|
                0 <= i < x@.len() ==> (#[trigger] x@[i]).0@ == y@[i].0@ && same_toml(
                    x@[i].1,
                    y@[i].1,
                )
        },
        _ => false,
    }
}

/// Whether a TOML value has a JSON counterpart: every float in it is a
/// number.
pub open spec fn has_json(v: TomlValue) -> bool
    decreases v,
{
    match v {
        TomlValue::Float(f) => f.finite(),
        TomlValue::Array(items) => forall|i: int|
            0 <= i < items@.len() ==> has_json(#[trigger] items@[i]),
        TomlValue::Table(entries) => forall|i: int|
            0 <= i < entries@.len() ==> has_json((#[trigger] entries@[i]).1),
        _ => true,
    }
}

/// Whether `j` is the JSON counterpart of `v`.
pub open spec fn is_json_of(v: TomlValue, j: JsonValue) -> bool
    decreases v,
{
    match (v, j) {
        (TomlValue::String(x), JsonValue::String(y)) => x@ == y@,
        (TomlValue::Datetime(x), JsonValue::String(y)) => x@ == y@,
        (TomlValue::Integer(x), JsonValue::Integer(y)) => x == y,
        (TomlValue::Float(x), JsonValue::Float(y)) => x == y && x.finite(),
        (TomlValue::Boolean(x), JsonValue::Bool(y)) => x == y,
        (TomlValue::Array(x), JsonValue::Array(y)) => {
            &&& x@.len() == y@.len()
            &&& forall|i: int| 0 <= i < x@.len() ==> is_json_of(#[trigger] x@[i], y@[i])
        },
        (TomlValue::Table(x), JsonValue::Object(y)) => {
            &&& x@.len() == y@.len()
            &&& forall|i: int|
                0 <= i < x@.len() ==> (#[trigger] x@[i]).0@ == y@[i].0@ && is_json_of(
                    x@[i].1,
                    y@[i].1,
                )
        },
        _ => false,
    }
}

proof fn lemma_item_smaller(v: TomlValue, i: int)
    requires
        v is Array,
        0 <= i < v->Array_0@.len(),
    ensures
        decreases_to!(v => v->Array_0@[i]),
{
    assert(decreases_to!(v => v->Array_0));
    assert(decreases_to!(v->Array_0 => v->Array_0@));
    assert(decreases_to!(v->Array_0@ => v->Array_0@[i]));
}

proof fn lemma_entry_smaller(v: TomlValue, i: int)
    requires
        v is Table,
        0 <= i < v->Table_0@.len(),
    ensures
        decreases_to!(v => v->Table_0@[i].1),
{
    assert(decreases_to!(v => v->Table_0));
    assert(decreases_to!(v->Table_0 => v->Table_0@));
    assert(decreases_to!(v->Table_0@ => v->Table_0@[i]));
    assert(decreases_to!(v->Table_0@[i] => v->Table_0@[i].1));
}

impl Clone for TomlValue {
    fn clone(&self) -> (r: Self)
        ensures
            same_toml(*self, r),
        decreases self,
    {
        match self {
            TomlValue::String(x) => TomlValue::String(x.clone()),
            TomlValue::Integer(x) => TomlValue::Integer(*x),
            TomlValue::Float(x) => TomlValue::Float(*x),
            TomlValue::Boolean(x) => TomlValue::Boolean(*x),
            TomlValue::Datetime(x) => TomlValue::Datetime(x.clone()),
            TomlValue::Array(x) => {
                let mut out: Vec<TomlValue> = Vec::new();
                for i in 0..x.len()
                    invariant
                        *self == TomlValue::Array(*x),
                        out@.len() == i,
                        forall|k: int| 0 <= k < i ==> same_toml(#[trigger] x@[k], out@[k]),
                {
                    proof {
                        lemma_item_smaller(*self, i as int);
                    }
                    let item = x[i].clone();
                    out.push(item);
                }
                TomlValue::Array(out)
            },
            TomlValue::Table(x) => {
                let mut out: Vec<(String, TomlValue)> = Vec::new();
                for i in 0..x.len()
                    invariant
                        *self == TomlValue::Table(*x),
                        out@.len() == i,
                        forall|k: int|
                            0 <= k < i ==> (#[trigger] x@[k]).0@ == out@[k].0@ && same_toml(
                                x@[k].1,
                                out@[k].1,
                            ),
                {
                    proof {
                        lemma_entry_smaller(*self, i as int);
                    }
                    let item = x[i].1.clone();
                    out.push((x[i].0.clone(), item));
                }
                TomlValue::Table(out)
            },
        }
    }
}

/// The JSON counterpart of a TOML value. A float that is not a number has
/// none.
pub fn toml_value_to_json(v: &TomlValue) -> (r: Result<JsonValue, String>)
    ensures
        match r {
            Ok(j) => has_json(*v) && is_json_of(*v, j),
            Err(e) => !has_json(*v) && e@ == "non-finite float"@,
        },
    decreases v,
{
    match v {
        TomlValue::String(x) => Ok(JsonValue::String(x.clone())),
        TomlValue::Datetime(x) => Ok(JsonValue::String(x.clone())),
        TomlValue::Integer(x) => Ok(JsonValue::Integer(*x)),
        TomlValue::Boolean(x) => Ok(JsonValue::Bool(*x)),
        TomlValue::Float(x) => if x.is_finite() {
            Ok(JsonValue::Float(*x))
        } else {
            Err("non-finite float".to_owned())
        },
        TomlValue::Array(x) => {
            let mut out: Vec<JsonValue> = Vec::new();
            for i in 0..x.len()
                invariant
                    *v == TomlValue::Array(*x),
                    out@.len() == i,
                    forall|k: int|
                        0 <= k < i ==> has_json(#[trigger] x@[k]) && is_json_of(x@[k], out@[k]),
            {
                proof {
                    lemma_item_smaller(*v, i as int);
                }
                match toml_value_to_json(&x[i]) {
                    Ok(j) => out.push(j),
                    Err(e) => {
                        assert(!has_json(v->Array_0@[i as int]));
                        return Err(e);
                    },
                }
            }
            Ok(JsonValue::Array(out))
        },
        TomlValue::Table(x) => {
            let mut out: Vec<(String, JsonValue)> = Vec::new();
            for i in 0..x.len()
                invariant
                    *v == TomlValue::Table(*x),
                    out@.len() == i,
                    forall|k: int|
                        0 <= k < i ==> (#[trigger] x@[k]).0@ == out@[k].0@ && has_json(x@[k].1)
                            && is_json_of(x@[k].1, out@[k].1),
            {
                proof {
                    lemma_entry_smaller(*v, i as int);
                }
                match toml_value_to_json(&x[i].1) {
                    Ok(j) => out.push((x[i].0.clone(), j)),
                    Err(e) => {
                        assert(!has_json(v->Table_0@[i as int].1));
                        return Err(e);
                    },
                }
            }
            Ok(JsonValue::Object(out))
        },
    }
}

/// Metadata as it is served: JSON by key.
pub type AnankeMetadata = Vec<(String, JsonValue)>;

/// The entries of a metadata table; none where none was written.
pub open spec fn written(raw: Option<&TextMap<TomlValue>>) -> Seq<(Seq<char>, TomlValue)> {
    match raw {
        Some(m) => m.pairs(),
        None => Seq::empty(),
    }
}

/// Whether every entry has a JSON counterpart.
pub open spec fn all_have_json(entries: Seq<(Seq<char>, TomlValue)>) -> bool {
    forall|i: int| 0 <= i < entries.len() ==> has_json((#[trigger] entries[i]).1)
}

/// Converts a service's metadata to the JSON that clients are served, key
/// by key. Nothing written is nothing served.
pub fn build_ananke_metadata(raw: Option<&TextMap<TomlValue>>) -> (r: Result<
    AnankeMetadata,
    String,
>)
    ensures
        match r {
            Ok(out) => {
                &&& all_have_json(written(raw))
                &&& out@.len() == written(raw).len()
                &&& forall|i: int|
                    0 <= i < out@.len() ==> (#[trigger] out@[i]).0@ == written(raw)[i].0
                        && is_json_of(written(raw)[i].1, out@[i].1)
            },
            Err(e) => !all_have_json(written(raw)) && e@ == "non-finite float"@,
        },
{
    let m = match raw {
        Some(m) => m,
        None => return Ok(Vec::new()),
    };
    let mut out: Vec<(String, JsonValue)> = Vec::new();
    let n: usize = m.len();
    for i in 0..n
        invariant
            n == m.pairs().len(),
            raw == Some(m),
            out@.len() == i,
            forall|k: int|
                0 <= k < i ==> (#[trigger] out@[k]).0@ == m.pairs()[k].0 && is_json_of(
                    m.pairs()[k].1,
                    out@[k].1,
                ),
            forall|k: int| 0 <= k < i ==> has_json((#[trigger] m.pairs()[k]).1),
    {
        match toml_value_to_json(m.value_at(i)) {
            Ok(j) => out.push((m.key_at(i).to_owned(), j)),
            Err(e) => {
                assert(!has_json(m.pairs()[i as int].1));
                return Err(e);
            },
        }
    }
    Ok(out)
}

} // verus!
