//! Manifest documents: a tree of tagged values, and the call that reads one
//! from text.

use vstd::prelude::*;

verus! {

/// A value of a manifest document.
#[derive(Debug)]
pub enum ManifestValue {
    /// A string.
    Text(String),
    /// A whole number.
    Integer(i64),
    /// A number with a fraction; its value is not kept.
    Float,
    /// A truth value.
    Boolean(bool),
    /// A date or a time; its value is not kept.
    Datetime,
    /// A list of values.
    Array(Vec<ManifestValue>),
    /// Keys with their values, in the order in which the table lists them.
    Table(Vec<(String, ManifestValue)>),
}

/// The value of the first entry of `entries` whose key is `key`.
pub open spec fn lookup_entry(entries: Seq<(String, ManifestValue)>, key: Seq<char>) -> Option<
    ManifestValue,
>
    decreases entries.len(),
{
    if entries.len() == 0 {
        None
    } else if entries[0].0@ == key {
        Some(entries[0].1)
    } else {
        lookup_entry(entries.drop_first(), key)
    }
}

impl ManifestValue {
    /// What a table holds under `key`. Anything but a table holds nothing.
    pub open spec fn lookup(self, key: Seq<char>) -> Option<ManifestValue> {
        match self {
            ManifestValue::Table(entries) => lookup_entry(entries@, key),
            _ => None,
        }
    }

    /// The text of a string value.
    pub open spec fn text(self) -> Option<Seq<char>> {
        match self {
            ManifestValue::Text(s) => Some(s@),
            _ => None,
        }
    }

    /// The entries of a table; none for anything else.
    pub open spec fn entries(self) -> Seq<(String, ManifestValue)> {
        match self {
            ManifestValue::Table(entries) => entries@,
            _ => Seq::empty(),
        }
    }

    /// What a table holds under `key`.
    pub fn get(&self, key: &str) -> (found: Option<&ManifestValue>)
        ensures
            match found {
                Some(value) => self.lookup(key@) == Some(*value),
                None => self.lookup(key@) is None,
            },
    {
        match self {
            ManifestValue::Table(entries) => {
                let wanted = key.to_string();
                let mut i: usize = 0;
                assert(entries@.skip(0) =~= entries@);
                while i < entries.len()
                    invariant
                        i <= entries.len(),
                        wanted@ == key@,
                        *self == ManifestValue::Table(*entries),
                        lookup_entry(entries@, key@) == lookup_entry(entries@.skip(i as int), key@),
                    decreases entries.len() - i,
                {
                    assert(entries@.skip(i as int).drop_first() =~= entries@.skip(i + 1));
                    assert(entries@.skip(i as int)[0] == entries[i as int]);
                    if entries[i].0 == wanted {
                        return Some(&entries[i].1);
                    }
                    i += 1;
                }
                None
            },
            _ => None,
        }
    }

    /// The string of a string value.
    pub fn as_str(&self) -> (found: Option<&String>)
        ensures
            match found {
                Some(s) => self.text() == Some(s@),
                None => self.text() is None,
            },
    {
        match self {
            ManifestValue::Text(s) => Some(s),
            _ => None,
        }
    }

    /// The truth value of a boolean.
    pub fn as_bool(&self) -> (found: Option<bool>)
        ensures
            match found {
                Some(b) => *self == ManifestValue::Boolean(b),
                None => !(self is Boolean),
            },
    {
        match self {
            ManifestValue::Boolean(b) => Some(*b),
            _ => None,
        }
    }

    /// The items of an array.
    pub fn as_array(&self) -> (found: Option<&Vec<ManifestValue>>)
        ensures
            match found {
                Some(items) => *self == ManifestValue::Array(*items),
                None => !(self is Array),
            },
    {
        match self {
            ManifestValue::Array(items) => Some(items),
            _ => None,
        }
    }

    /// The entries of a table.
    pub fn as_table(&self) -> (found: Option<&Vec<(String, ManifestValue)>>)
        ensures
            match found {
                Some(entries) => *self == ManifestValue::Table(*entries),
                None => !(self is Table),
            },
    {
        match self {
            ManifestValue::Table(entries) => Some(entries),
            _ => None,
        }
    }
}

/// Makes `toml::Value` known as a type whose inside is not looked at.
#[verifier::external_type_specification]
#[verifier::external_body]
pub struct ExTomlValue(toml::Value);

/// The document that a text holds, or `None` where the text is no valid
/// document.
pub uninterp spec fn toml_document(text: Seq<char>) -> Option<ManifestValue>;

/// What a parsed value holds: its variant, and under it its fields, items
/// or entries.
pub uninterp spec fn toml_tree(value: toml::Value) -> ManifestValue;

/// Reads a document with `toml::from_str`. The contract claims that the
/// result depends on the text alone: a failure where `toml_document` has no
/// document for the text, else a value that holds that document.
#[verifier::external_body]
fn parse_toml(text: &str) -> (parsed: Option<toml::Value>)
    ensures
        match parsed {
            Some(value) => toml_document(text@) == Some(toml_tree(value)),
            None => toml_document(text@) is None,
        },
{
    toml::from_str::<toml::Value>(text).ok()
}

/// Copies a `toml::Value` into a `ManifestValue`, variant by variant; the
/// entries of a table come as `toml::Table::iter` hands them out. The
/// contract claims that the copy is what the value holds.
#[verifier::external_body]
fn copy_toml(value: &toml::Value) -> (copy: ManifestValue)
    ensures
        copy == toml_tree(*value),
{
    match value {
        toml::Value::String(s) => ManifestValue::Text(s.clone()),
        toml::Value::Integer(i) => ManifestValue::Integer(*i),
        toml::Value::Float(_) => ManifestValue::Float,
        toml::Value::Boolean(b) => ManifestValue::Boolean(*b),
        toml::Value::Datetime(_) => ManifestValue::Datetime,
        toml::Value::Array(a) => ManifestValue::Array(a.iter().map(copy_toml).collect()),
        toml::Value::Table(t) => ManifestValue::Table(
            t.iter().map(|(k, v)| (k.clone(), copy_toml(v))).collect(),
        ),
    }
}

/// Reads the document that `text` holds.
pub fn parse_document(text: &str) -> (document: Option<ManifestValue>)
    ensures
        document == toml_document(text@),
{
    match parse_toml(text) {
        Some(value) => Some(copy_toml(&value)),
        None => None,
    }
}

} // verus!
