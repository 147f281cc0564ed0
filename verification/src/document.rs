//! Config documents: the keys and values that TOML text holds.

use vstd::prelude::*;
use vstd::string::*;

use crate::text::str_eq;

verus! {

/// A value of a TOML document. Of the kinds that no setting uses, only the kind
/// is kept.
#[derive(Debug, Clone, PartialEq, Eq)]
pub enum TomlValue {
    Text(String),
    Integer(i64),
    Boolean(bool),
    Float,
    Datetime,
    Array,
    Table,
}

/// What a [`TomlValue`] says.
#[verifier::ext_equal]
pub enum TomlView {
    Text(Seq<char>),
    Integer(i64),
    Boolean(bool),
    Float,
    Datetime,
    Array,
    Table,
}

impl View for TomlValue {
    type V = TomlView;

    open spec fn view(&self) -> TomlView {
        match self {
            TomlValue::Text(s) => TomlView::Text(s@),
            TomlValue::Integer(i) => TomlView::Integer(*i),
            TomlValue::Boolean(b) => TomlView::Boolean(*b),
            TomlValue::Float => TomlView::Float,
            TomlValue::Datetime => TomlView::Datetime,
            TomlValue::Array => TomlView::Array,
            TomlValue::Table => TomlView::Table,
        }
    }
}

/// What a list of keys and values says.
pub open spec fn entries_view(v: Seq<(String, TomlValue)>) -> Seq<(Seq<char>, TomlView)> {
    v.map_values(|e: (String, TomlValue)| (e.0@, e.1@))
}

/// The top-level keys and values of TOML text, or the message of the parser.
pub uninterp spec fn toml_document(text: Seq<char>) -> Result<Seq<(Seq<char>, TomlView)>, Seq<char>>;

/// The views of a result of reading a document.
pub open spec fn document_result(
    r: Result<Vec<(String, TomlValue)>, String>,
) -> Result<Seq<(Seq<char>, TomlView)>, Seq<char>> {
    match r {
        Ok(v) => Ok(entries_view(v@)),
        Err(e) => Err(e@),
    }
}

/// `toml::from_str`, read into a `toml::Table`: the keys and values of the
/// document `text`, each value turned into its plain counterpart, or the text of
/// the parse error. The result depends on the text alone; what it is for a given
/// text is not stated.
#[verifier::external_body]
pub(crate) fn toml_entries(text: &str) -> (r: Result<Vec<(String, TomlValue)>, String>)
    ensures
        document_result(r) == toml_document(text@),
{
    let table: toml::Table = toml::from_str(text).map_err(|e| e.to_string())?;
    let mut out: Vec<(String, TomlValue)> = Vec::new();
    for (key, value) in table {
        let plain = match value {
            toml::Value::String(s) => TomlValue::Text(s),
            toml::Value::Integer(i) => TomlValue::Integer(i),
            toml::Value::Boolean(b) => TomlValue::Boolean(b),
            toml::Value::Float(_) => TomlValue::Float,
            toml::Value::Datetime(_) => TomlValue::Datetime,
            toml::Value::Array(_) => TomlValue::Array,
            toml::Value::Table(_) => TomlValue::Table,
        };
        out.push((key, plain));
    }
    Ok(out)
}

/// The value at the first entry for `key`.
pub open spec fn value_at(doc: Seq<(Seq<char>, TomlView)>, key: Seq<char>) -> Option<TomlView>
    decreases doc.len(),
{
    if doc.len() == 0 {
        None
    } else if doc[0].0 == key {
        Some(doc[0].1)
    } else {
        value_at(doc.drop_first(), key)
    }
}

/// The value at the first entry for `key`.
pub fn find_value<'a>(doc: &'a Vec<(String, TomlValue)>, key: &str) -> (r: Option<&'a TomlValue>)
    ensures
        match r {
            Some(v) => value_at(entries_view(doc@), key@) == Some(v@),
            None => value_at(entries_view(doc@), key@) is None,
        },
{
    let mut i: usize = 0;
    let ghost all = entries_view(doc@);
    assert(all.skip(0) =~= all);
    while i < doc.len()
        invariant
            i <= doc.len(),
            all == entries_view(doc@),
            value_at(all, key@) == value_at(all.skip(i as int), key@),
        decreases doc.len() - i,
    {
        assert(all.skip(i as int)[0] == (doc@[i as int].0@, doc@[i as int].1@));
        assert(all.skip(i as int).drop_first() =~= all.skip(i + 1));
        if str_eq(doc[i].0.as_str(), key) {
            return Some(&doc[i].1);
        }
        i = i + 1;
    }
    None
}

} // verus!
