//! A mathematical model of the parts of a TOML document that the manifest
//! format uses: tables of named entries whose values are strings, booleans,
//! arrays, nested tables, or something else.

use vstd::prelude::*;

verus! {

/// The shape of one TOML item, reduced to what the manifest format reads.
/// A `Table` carries its entries in document order.
pub enum TomlData {
    Str(Seq<char>),
    Bool(bool),
    Arr(Seq<TomlElem>),
    Table(Seq<(Seq<char>, TomlData)>),
    Other,
}

/// One element of a TOML array: a string, some other value, or a placeholder
/// slot that holds no value at all.
pub enum TomlElem {
    Str(Seq<char>),
    OtherVal,
    Missing,
}

/// The keys of a sequence of entries, in order.
pub open spec fn entry_keys<V>(es: Seq<(Seq<char>, V)>) -> Seq<Seq<char>> {
    es.map_values(|e: (Seq<char>, V)| e.0)
}

/// No two entries share a key.
pub open spec fn unique_keys<V>(es: Seq<(Seq<char>, V)>) -> bool {
    forall|i: int, j: int| 0 <= i < j < es.len() ==> es[i].0 != es[j].0
}

/// The value stored under `key`: the value of the first entry with that key.
pub open spec fn find_entry<V>(es: Seq<(Seq<char>, V)>, key: Seq<char>) -> Option<V>
    decreases es.len(),
{
    if es.len() == 0 {
        None
    } else if es[0].0 == key {
        Some(es[0].1)
    } else {
        find_entry(es.drop_first(), key)
    }
}

/// When no entry before position `j` has the key of entry `j`, the lookup of
/// that key lands on entry `j`.
pub proof fn lemma_find_entry_first<V>(es: Seq<(Seq<char>, V)>, key: Seq<char>, j: int)
    requires
        0 <= j < es.len(),
        es[j].0 == key,
        forall|k: int| 0 <= k < j ==> es[k].0 != key,
    ensures
        find_entry(es, key) == Some(es[j].1),
    decreases j,
{
    if j > 0 {
        lemma_find_entry_first(es.drop_first(), key, j - 1);
    }
}

/// With unique keys, the lookup of entry `j`'s key lands on entry `j`.
pub proof fn lemma_find_entry_at<V>(es: Seq<(Seq<char>, V)>, j: int)
    requires
        unique_keys(es),
        0 <= j < es.len(),
    ensures
        find_entry(es, es[j].0) == Some(es[j].1),
{
    lemma_find_entry_first(es, es[j].0, j);
}

/// When no entry has the key, the lookup fails.
pub proof fn lemma_find_entry_none<V>(es: Seq<(Seq<char>, V)>, key: Seq<char>)
    requires
        forall|k: int| 0 <= k < es.len() ==> es[k].0 != key,
    ensures
        find_entry(es, key) is None,
    decreases es.len(),
{
    if es.len() > 0 {
        lemma_find_entry_none(es.drop_first(), key);
    }
}

} // verus!
