//! A plain tree for TOML documents, so that the configuration schema can be
//! read by verified code. The text itself is parsed by the `toml` crate.
use vstd::prelude::*;

verus! {

/// `toml::Value`, as the `toml` crate hands it out; only moved into a
/// `TomlValue` by `tree_of`.
#[verifier::external_type_specification]
#[verifier::external_body]
pub struct ExTomlValue(toml::Value);

/// A TOML value. Floats and datetimes, which no configuration field takes,
/// are kept only as `Other`.
#[derive(Debug)]
pub enum TomlValue {
    Str(String),
    Integer(i64),
    Boolean(bool),
    Array(Vec<TomlValue>),
    Table(Vec<TomlEntry>),
    Other,
}

/// One key of a TOML table with its value.
#[derive(Debug)]
pub struct TomlEntry {
    pub key: String,
    pub value: TomlValue,
}

/// The tree that the `toml` crate reads from a document, or `None` where it
/// refuses the text.
pub uninterp spec fn toml_document(text: Seq<char>) -> Option<TomlValue>;

/// Relies on `toml::from_str` (toml 0.8) read into a `toml::Table`: it
/// decides whether the text is a TOML document and, if so, which table it
/// holds; the empty text is the empty table. A refusal comes back as the
/// message of the `toml::de::Error`.
#[verifier::external_body]
pub(crate) fn parse_document(text: &str) -> (r: Result<TomlValue, String>)
    ensures
        r is Ok ==> toml_document(text@) == Some(r->Ok_0),
        r is Err ==> toml_document(text@) is None,
        text@.len() == 0 ==> r is Ok && r->Ok_0 is Table && r->Ok_0->Table_0@.len() == 0,
{
    toml::from_str::<toml::Table>(text).map(|t| tree_of(toml::Value::Table(t))).map_err(|e| e.to_string())
}

/// Moves a `toml::Value` into the plain tree, variant for variant; the second
/// half of `parse_document`.
#[verifier::external_body]
fn tree_of(v: toml::Value) -> TomlValue {
    match v {
        toml::Value::String(s) => TomlValue::Str(s),
        toml::Value::Integer(i) => TomlValue::Integer(i),
        toml::Value::Boolean(b) => TomlValue::Boolean(b),
        toml::Value::Array(a) => TomlValue::Array(a.into_iter().map(tree_of).collect()),
        toml::Value::Table(t) => TomlValue::Table(
            t.into_iter().map(|(key, value)| TomlEntry { key, value: tree_of(value) }).collect(),
        ),
        toml::Value::Float(_) => TomlValue::Other,
        toml::Value::Datetime(_) => TomlValue::Other,
    }
}

/// The value of the first entry whose key is `key`.
pub open spec fn lookup(entries: Seq<TomlEntry>, key: Seq<char>) -> Option<TomlValue>
    decreases entries.len(),
{
    if entries.len() == 0 {
        None
    } else if entries[0].key@ == key {
        Some(entries[0].value)
    } else {
        lookup(entries.drop_first(), key)
    }
}

/// Whether two texts are equal.
pub fn same_text(a: &String, b: &str) -> (r: bool)
    ensures
        r == (a@ == b@),
{
    let owned = b.to_owned();
    *a == owned
}

/// Looks `key` up in a table.
pub fn get<'a>(entries: &'a Vec<TomlEntry>, key: &str) -> (r: Option<&'a TomlValue>)
    ensures
        r matches Some(v) ==> lookup(entries@, key@) == Some(*v),
        r is None ==> lookup(entries@, key@) is None,
{
    let mut i: usize = 0;
    assert(entries@.subrange(0, entries@.len() as int) =~= entries@);
    while i < entries.len()
        invariant
            0 <= i <= entries@.len(),
            lookup(entries@, key@) == lookup(entries@.subrange(i as int, entries@.len() as int), key@),
        decreases entries@.len() - i,
    {
        let ghost rest = entries@.subrange(i as int, entries@.len() as int);
        assert(rest.drop_first() =~= entries@.subrange(i + 1, entries@.len() as int));
        if same_text(&entries[i].key, key) {
            return Some(&entries[i].value);
        }
        i = i + 1;
    }
    None
}

} // verus!
