//! The trusted boundary to the TOML parser.
//!
//! The manifest's textual syntax is an outside concern: `toml_edit` parses
//! it.  Each declared type below is opaque; what a value of it holds is
//! named by an uninterpreted model function, and one small wrapper per
//! `toml_edit` method states, over those models, what the call returns.

use vstd::prelude::*;
use toml_edit::{Array, DocumentMut, Item, Table, TomlError, Value};
use crate::model::{find_entry, unique_keys, entry_keys, TomlData, TomlElem};

verus! {

#[verifier::external_type_specification]
#[verifier::external_body]
pub struct ExDocumentMut(DocumentMut);

#[verifier::external_type_specification]
#[verifier::external_body]
pub struct ExItem(Item);

#[verifier::external_type_specification]
#[verifier::external_body]
pub struct ExTable(Table);

#[verifier::external_type_specification]
#[verifier::external_body]
pub struct ExArray(Array);

#[verifier::external_type_specification]
#[verifier::external_body]
pub struct ExValue(Value);

#[verifier::external_type_specification]
#[verifier::external_body]
pub struct ExTomlError(TomlError);

/// What a text parses to: the root table's entries in document order, or
/// `None` when the text is not well-formed TOML (bad syntax, duplicate
/// keys).  Parsing is a function of the text alone.
pub uninterp spec fn toml_doc(text: Seq<char>) -> Option<Seq<(Seq<char>, TomlData)>>;

/// The root entries a parsed document holds.
pub uninterp spec fn doc_model(d: DocumentMut) -> Seq<(Seq<char>, TomlData)>;

/// What one item holds.
pub uninterp spec fn item_model(i: Item) -> TomlData;

/// The entries a table holds, in document order.
pub uninterp spec fn table_model(t: Table) -> Seq<(Seq<char>, TomlData)>;

/// The elements an array holds, in order, placeholder slots included.
pub uninterp spec fn array_model(a: Array) -> Seq<TomlElem>;

/// What one array value holds.
pub uninterp spec fn value_model(v: Value) -> TomlElem;

/// Relies on `DocumentMut: FromStr`: parses TOML text; the outcome depends
/// on the text alone, and a parsed document's root table has unique keys.
#[verifier::external_body]
pub(crate) fn parse_document(text: &str) -> (r: Result<DocumentMut, TomlError>)
    ensures
        r is Ok <==> toml_doc(text@) is Some,
        r matches Ok(d) ==> Some(doc_model(d)) == toml_doc(text@) && unique_keys(doc_model(d)),
{
    text.parse::<DocumentMut>()
}

/// Relies on `DocumentMut::as_table`: the root table of the document.
#[verifier::external_body]
pub(crate) fn document_root(d: &DocumentMut) -> (r: &Table)
    ensures
        table_model(*r) == doc_model(*d),
{
    d.as_table()
}

/// Relies on `Table::get`: the item stored under `key`, if any.
#[verifier::external_body]
pub(crate) fn table_get<'a>(t: &'a Table, key: &str) -> (r: Option<&'a Item>)
    ensures
        r is Some <==> find_entry(table_model(*t), key@) is Some,
        r matches Some(i) ==> Some(item_model(*i)) == find_entry(table_model(*t), key@),
{
    t.get(key)
}

/// Relies on `Table::iter`: yields the table's keys in document order.
#[verifier::external_body]
pub(crate) fn table_keys(t: &Table) -> (r: Vec<String>)
    ensures
        r@.map_values(|s: String| s@) == entry_keys(table_model(*t)),
{
    t.iter().map(|(k, _)| k.to_owned()).collect()
}

/// Relies on `Item::as_table`: `Some` exactly when the item is a table, and
/// any `toml_edit` table has unique keys.
#[verifier::external_body]
pub(crate) fn item_as_table<'a>(i: &'a Item) -> (r: Option<&'a Table>)
    ensures
        r is Some <==> item_model(*i) is Table,
        r matches Some(t) ==> item_model(*i) == TomlData::Table(table_model(*t))
            && unique_keys(table_model(*t)),
{
    i.as_table()
}

/// Relies on `Item::as_str`: `Some` exactly when the item is a string value.
#[verifier::external_body]
pub(crate) fn item_as_str(i: &Item) -> (r: Option<String>)
    ensures
        r is Some <==> item_model(*i) is Str,
        r matches Some(s) ==> item_model(*i) == TomlData::Str(s@),
{
    i.as_str().map(|s| s.to_owned())
}

/// Relies on `Item::as_bool`: `Some` exactly when the item is a boolean.
#[verifier::external_body]
pub(crate) fn item_as_bool(i: &Item) -> (r: Option<bool>)
    ensures
        r is Some <==> item_model(*i) is Bool,
        r matches Some(b) ==> item_model(*i) == TomlData::Bool(b),
{
    i.as_bool()
}

/// Relies on `Item::as_array`: `Some` exactly when the item is an array
/// value.
#[verifier::external_body]
pub(crate) fn item_as_array<'a>(i: &'a Item) -> (r: Option<&'a Array>)
    ensures
        r is Some <==> item_model(*i) is Arr,
        r matches Some(a) ==> item_model(*i) == TomlData::Arr(array_model(*a)),
{
    i.as_array()
}

/// Relies on `Array::len`: the number of slots, placeholders included.
#[verifier::external_body]
pub(crate) fn array_len(a: &Array) -> (r: usize)
    ensures
        r == array_model(*a).len(),
{
    a.len()
}

/// Relies on `Array::get`: the value in slot `i`, `None` when the index is
/// out of bounds or the slot is a placeholder holding no value.
#[verifier::external_body]
pub(crate) fn array_get<'a>(a: &'a Array, i: usize) -> (r: Option<&'a Value>)
    ensures
        r is Some <==> (i < array_model(*a).len() && !(array_model(*a)[i as int] is Missing)),
        r matches Some(v) ==> value_model(*v) == array_model(*a)[i as int],
{
    a.get(i)
}

/// Relies on `Value::as_str`: `Some` exactly when the value is a string.
#[verifier::external_body]
pub(crate) fn value_as_str(v: &Value) -> (r: Option<String>)
    ensures
        r is Some <==> value_model(*v) is Str,
        r matches Some(s) ==> value_model(*v) == TomlElem::Str(s@),
{
    v.as_str().map(|s| s.to_owned())
}

} // verus!
