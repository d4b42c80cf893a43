//! The part of a TOML document that configuration checks read: tables,
//! strings and a few scalars. The text itself is read by the `toml` crate;
//! which keys matter is decided here.
use vstd::prelude::*;
use crate::text::str_eq;

verus! {

broadcast use vstd::string::group_string_axioms;

/// The `toml` crate's value type, carried as it is.
#[verifier::external_type_specification]
#[verifier::external_body]
pub struct ExTomlValue(toml::Value);

/// A TOML value. Floats and datetimes are kept only as `Other`: nothing
/// here reads them.
#[derive(Debug)]
pub enum TomlValue {
    Str(String),
    Int(i64),
    Bool(bool),
    Array(Vec<TomlValue>),
    /// The entries of a table, each key once.
    Table(Vec<(String, TomlValue)>),
    Other,
}

/// A TOML value with its strings and lists as sequences.
pub enum TomlView {
    Str(Seq<char>),
    Int(i64),
    Bool(bool),
    Array(Seq<TomlView>),
    Table(Seq<(Seq<char>, TomlView)>),
    Other,
}

impl TomlValue {
    pub open spec fn model(self) -> TomlView
        decreases self, 0int,
    {
        match self {
            TomlValue::Str(s) => TomlView::Str(s@),
            TomlValue::Int(i) => TomlView::Int(i),
            TomlValue::Bool(b) => TomlView::Bool(b),
            TomlValue::Array(a) => {
                proof {
                    assert(decreases_to!(self => a));
                    assert(decreases_to!(a => a@));
                }
                TomlView::Array(toml_items_model(a@, a@.len() as int))
            },
            TomlValue::Table(t) => {
                proof {
                    assert(decreases_to!(self => t));
                    assert(decreases_to!(t => t@));
                }
                TomlView::Table(toml_entries_model(t@, t@.len() as int))
            },
            TomlValue::Other => TomlView::Other,
        }
    }
}

/// The models of the first `n` items.
pub open spec fn toml_items_model(items: Seq<TomlValue>, n: int) -> Seq<TomlView>
    decreases items, n,
{
    if n <= 0 || n > items.len() {
        Seq::empty()
    } else {
        proof {
            assert(decreases_to!(items => items[n - 1]));
        }
        toml_items_model(items, n - 1).push(items[n - 1].model())
    }
}

/// The models of the first `n` entries.
pub open spec fn toml_entries_model(entries: Seq<(String, TomlValue)>, n: int) -> Seq<(Seq<char>, TomlView)>
    decreases entries, n,
{
    if n <= 0 || n > entries.len() {
        Seq::empty()
    } else {
        proof {
            assert(decreases_to!(entries => entries[n - 1]));
            assert(decreases_to!(entries[n - 1] => entries[n - 1].1));
        }
        toml_entries_model(entries, n - 1).push((entries[n - 1].0@, entries[n - 1].1.model()))
    }
}

proof fn lemma_toml_entries_model(entries: Seq<(String, TomlValue)>, n: int)
    requires
        0 <= n <= entries.len(),
    ensures
        toml_entries_model(entries, n).len() == n,
        forall|k: int|
            0 <= k < n ==> #[trigger] toml_entries_model(entries, n)[k] == (
                entries[k].0@,
                entries[k].1.model(),
            ),
    decreases n,
{
    if n > 0 {
        lemma_toml_entries_model(entries, n - 1);
    }
}

pub open spec fn opt_toml_model(v: Option<TomlValue>) -> Option<TomlView> {
    match v {
        Some(x) => Some(x.model()),
        None => None,
    }
}

/// The value of the first entry with this key.
pub open spec fn table_lookup(entries: Seq<(Seq<char>, TomlView)>, key: Seq<char>) -> Option<TomlView>
    decreases entries.len(),
{
    if entries.len() == 0 {
        None
    } else if entries[0].0 == key {
        Some(entries[0].1)
    } else {
        table_lookup(entries.drop_first(), key)
    }
}

proof fn lemma_table_lookup_at(entries: Seq<(Seq<char>, TomlView)>, key: Seq<char>, i: int)
    requires
        0 <= i <= entries.len(),
        forall|j: int| 0 <= j < i ==> entries[j].0 != key,
    ensures
        i < entries.len() && entries[i].0 == key ==> table_lookup(entries, key) == Some(entries[i].1),
        i == entries.len() ==> table_lookup(entries, key) is None,
    decreases i,
{
    if i > 0 {
        assert forall|j: int| 0 <= j < i - 1 implies entries.drop_first()[j].0 != key by {
            assert(entries.drop_first()[j] == entries[j + 1]);
        }
        lemma_table_lookup_at(entries.drop_first(), key, i - 1);
    }
}

impl TomlView {
    /// `v.get(key)`: the value under `key` when `v` is a table.
    pub open spec fn field(self, key: Seq<char>) -> Option<TomlView> {
        match self {
            TomlView::Table(entries) => table_lookup(entries, key),
            _ => None,
        }
    }
}

/// What `toml::from_str` reads from a text, as a value; none when the text
/// is not a TOML document.
pub uninterp spec fn toml_document(text: Seq<char>) -> Option<TomlView>;

/// Reads a TOML document with `toml::from_str` into a `toml::Value`, then
/// takes it over variant by variant.
#[verifier::external_body]
pub fn parse_toml(text: &str) -> (r: Option<TomlValue>)
    ensures
        opt_toml_model(r) == toml_document(text@),
{
    toml::from_str::<toml::Value>(text).ok().map(TomlValue::from_toml)
}

impl TomlValue {
    /// The `toml::Value` as a `TomlValue`, one variant for one, a table
    /// entry by entry; a float or a datetime becomes `Other`. It is called
    /// only by `parse_toml`, whose contract covers the result.
    #[verifier::external_body]
    fn from_toml(v: toml::Value) -> TomlValue {
        match v {
            toml::Value::String(s) => TomlValue::Str(s),
            toml::Value::Integer(i) => TomlValue::Int(i),
            toml::Value::Boolean(b) => TomlValue::Bool(b),
            toml::Value::Array(a) => TomlValue::Array(a.into_iter().map(TomlValue::from_toml).collect()),
            toml::Value::Table(t) => TomlValue::Table(t.into_iter().map(|(k, x)| (k, TomlValue::from_toml(x))).collect()),
            toml::Value::Float(_) => TomlValue::Other,
            toml::Value::Datetime(_) => TomlValue::Other,
        }
    }

    /// `v.get(key)`: the value under `key` when `v` is a table.
    pub fn get(&self, key: &str) -> (r: Option<&TomlValue>)
        ensures
            opt_toml_model(match r { Some(x) => Some(*x), None => None }) == self.model().field(key@),
    {
        match self {
            TomlValue::Table(entries) => {
                let ghost ms = toml_entries_model(entries@, entries@.len() as int);
                proof {
                    lemma_toml_entries_model(entries@, entries@.len() as int);
                }
                let mut i: usize = 0;
                while i < entries.len()
                    invariant
                        self.model().field(key@) == table_lookup(ms, key@),
                        ms == toml_entries_model(entries@, entries@.len() as int),
                        ms.len() == entries@.len(),
                        forall|k: int| 0 <= k < entries@.len() ==> #[trigger] ms[k] == (
                            entries@[k].0@,
                            entries@[k].1.model(),
                        ),
                        i <= entries@.len(),
                        forall|j: int| 0 <= j < i ==> ms[j].0 != key@,
                    decreases entries.len() - i,
                {
                    if str_eq(entries[i].0.as_str(), key) {
                        proof {
                            lemma_table_lookup_at(ms, key@, i as int);
                        }
                        return Some(&entries[i].1);
                    }
                    i = i + 1;
                }
                proof {
                    lemma_table_lookup_at(ms, key@, i as int);
                }
                None
            },
            _ => None,
        }
    }

    /// `v.as_str()`.
    pub fn as_str(&self) -> (r: Option<&str>)
        ensures
            match r {
                Some(s) => self.model() == TomlView::Str(s@),
                None => !(self.model() is Str),
            },
    {
        match self {
            TomlValue::Str(s) => Some(s.as_str()),
            _ => None,
        }
    }
}

} // verus!
