//! Deserializing parsed TOML into typed records.
//!
//! This is the record-shape logic of the registry: which fields a section
//! must carry, which are optional, and what a well-formed section means.
//! Unknown extra fields are tolerated and ignored.

use vstd::prelude::*;
use toml_edit::Table;
use crate::model::{find_entry, unique_keys, entry_keys, TomlData, TomlElem};
use crate::model::{lemma_find_entry_at};
use crate::records::{Component, ComponentError, ComponentView, Components};
use crate::toml_data::{
    parse_document, document_root, table_get, table_keys, item_as_table, item_as_str,
    item_as_bool, item_as_array, array_len, array_get, value_as_str, toml_doc, table_model,
};

verus! {

/// A required string field: present and a string.
pub open spec fn str_field_ok(f: Option<TomlData>) -> bool {
    f matches Some(TomlData::Str(_))
}

/// The value of a required string field.
pub open spec fn str_field(f: Option<TomlData>) -> Seq<char> {
    match f {
        Some(TomlData::Str(s)) => s,
        _ => Seq::empty(),
    }
}

/// A required list-of-strings field: present, an array, every slot a string.
pub open spec fn str_list_ok(f: Option<TomlData>) -> bool {
    f matches Some(TomlData::Arr(a)) && forall|i: int| 0 <= i < a.len() ==> a[i] is Str
}

/// The string one array slot holds; empty for any other slot.
pub open spec fn elem_str(e: TomlElem) -> Seq<char> {
    match e {
        TomlElem::Str(s) => s,
        _ => Seq::empty(),
    }
}

/// The strings of one array, slot by slot.
pub open spec fn elem_strings(a: Seq<TomlElem>) -> Seq<Seq<char>> {
    a.map_values(|e: TomlElem| elem_str(e))
}

/// The value of a required list-of-strings field.
pub open spec fn str_list(f: Option<TomlData>) -> Seq<Seq<char>> {
    match f {
        Some(TomlData::Arr(a)) => elem_strings(a),
        _ => Seq::empty(),
    }
}

/// An optional boolean field: absent, or present and a boolean.
pub open spec fn opt_bool_ok(f: Option<TomlData>) -> bool {
    match f {
        None => true,
        Some(d) => d is Bool,
    }
}

/// The tri-state value of an optional boolean field.
pub open spec fn opt_bool(f: Option<TomlData>) -> Option<bool> {
    match f {
        Some(TomlData::Bool(b)) => Some(b),
        _ => None,
    }
}

/// A well-formed manifest section: the required fields are present with the
/// right types, and the optional flags, where present, are booleans.
pub open spec fn section_ok(es: Seq<(Seq<char>, TomlData)>) -> bool {
    &&& str_field_ok(find_entry(es, "name"@))
    &&& str_field_ok(find_entry(es, "tarball_prefix"@))
    &&& str_field_ok(find_entry(es, "repository_name"@))
    &&& str_list_ok(find_entry(es, "executables"@))
    &&& str_list_ok(find_entry(es, "targets"@))
    &&& opt_bool_ok(find_entry(es, "is_plugin"@))
    &&& opt_bool_ok(find_entry(es, "publish"@))
}

/// The record a well-formed section describes.
pub open spec fn section_view(es: Seq<(Seq<char>, TomlData)>) -> ComponentView {
    ComponentView {
        name: str_field(find_entry(es, "name"@)),
        is_plugin: opt_bool(find_entry(es, "is_plugin"@)),
        tarball_prefix: str_field(find_entry(es, "tarball_prefix"@)),
        executables: str_list(find_entry(es, "executables"@)),
        repository_name: str_field(find_entry(es, "repository_name"@)),
        targets: str_list(find_entry(es, "targets"@)),
        publish: opt_bool(find_entry(es, "publish"@)),
    }
}

/// The entries of a table-valued item; empty for any other item.
pub open spec fn sub_entries(d: TomlData) -> Seq<(Seq<char>, TomlData)> {
    match d {
        TomlData::Table(es) => es,
        _ => Seq::empty(),
    }
}

/// The manifest's sections: the entries of its `component` table.
pub open spec fn manifest_sections(text: Seq<char>) -> Seq<(Seq<char>, TomlData)> {
    match toml_doc(text) {
        Some(root) => match find_entry(root, "component"@) {
            Some(TomlData::Table(secs)) => secs,
            _ => Seq::empty(),
        },
        None => Seq::empty(),
    }
}

/// A well-formed manifest: well-formed TOML, a `component` table at the
/// root, and every entry of that table a well-formed section.
pub open spec fn manifest_ok(text: Seq<char>) -> bool {
    &&& toml_doc(text) matches Some(root)
    &&& find_entry(root, "component"@) matches Some(TomlData::Table(_))
    &&& forall|j: int|
        0 <= j < manifest_sections(text).len() ==> (#[trigger] manifest_sections(
            text,
        )[j].1) is Table && section_ok(sub_entries(manifest_sections(text)[j].1))
}

/// The keyed record one section entry describes.
pub open spec fn section_pair(e: (Seq<char>, TomlData)) -> (Seq<char>, ComponentView) {
    (e.0, section_view(sub_entries(e.1)))
}

/// The registry a well-formed manifest describes: one keyed record per
/// section, in document order.
pub open spec fn manifest_view(text: Seq<char>) -> Seq<(Seq<char>, ComponentView)> {
    manifest_sections(text).map_values(|e: (Seq<char>, TomlData)| section_pair(e))
}

fn get_required_string(t: &Table, key: &str) -> (r: Result<String, ComponentError>)
    ensures
        r is Ok <==> str_field_ok(find_entry(table_model(*t), key@)),
        r matches Ok(s) ==> s@ == str_field(find_entry(table_model(*t), key@)),
        r matches Err(e) ==> e is Parse,
{
    match table_get(t, key) {
        Some(item) => match item_as_str(item) {
            Some(s) => Ok(s),
            None => Err(ComponentError::Parse),
        },
        None => Err(ComponentError::Parse),
    }
}

fn get_optional_bool(t: &Table, key: &str) -> (r: Result<Option<bool>, ComponentError>)
    ensures
        r is Ok <==> opt_bool_ok(find_entry(table_model(*t), key@)),
        r matches Ok(b) ==> b == opt_bool(find_entry(table_model(*t), key@)),
        r matches Err(e) ==> e is Parse,
{
    match table_get(t, key) {
        Some(item) => match item_as_bool(item) {
            Some(b) => Ok(Some(b)),
            None => Err(ComponentError::Parse),
        },
        None => Ok(None),
    }
}

fn get_required_string_list(t: &Table, key: &str) -> (r: Result<Vec<String>, ComponentError>)
    ensures
        r is Ok <==> str_list_ok(find_entry(table_model(*t), key@)),
        r matches Ok(v) ==> v@.map_values(|s: String| s@) == str_list(
            find_entry(table_model(*t), key@),
        ),
        r matches Err(e) ==> e is Parse,
{
    let item = match table_get(t, key) {
        Some(i) => i,
        None => {
            return Err(ComponentError::Parse);
        },
    };
    let arr = match item_as_array(item) {
        Some(a) => a,
        None => {
            return Err(ComponentError::Parse);
        },
    };
    let ghost am = crate::toml_data::array_model(*arr);
    let n = array_len(arr);
    let mut out: Vec<String> = Vec::new();
    let mut idx: usize = 0;
    while idx < n
        invariant
            n == am.len(),
            am == crate::toml_data::array_model(*arr),
            find_entry(table_model(*t), key@) == Some(TomlData::Arr(am)),
            0 <= idx <= n,
            forall|k: int| 0 <= k < idx ==> am[k] is Str,
            out@.map_values(|s: String| s@) == am.take(idx as int).map_values(
                |e: TomlElem| elem_str(e),
            ),
        decreases n - idx,
    {
        let v = match array_get(arr, idx) {
            Some(v) => v,
            None => {
                return Err(ComponentError::Parse);
            },
        };
        let s = match value_as_str(v) {
            Some(s) => s,
            None => {
                return Err(ComponentError::Parse);
            },
        };
        proof {
            am.lemma_map_take_succ(|e: TomlElem| elem_str(e), idx as int);
            out@.lemma_push_map_commute(|x: String| x@, s);
        }
        out.push(s);
        idx = idx + 1;
    }
    proof {
        assert(am.take(n as int) =~= am);
    }
    Ok(out)
}

pub(crate) fn read_component(t: &Table) -> (r: Result<Component, ComponentError>)
    ensures
        r is Ok <==> section_ok(table_model(*t)),
        r matches Ok(c) ==> c@ == section_view(table_model(*t)),
        r matches Err(e) ==> e is Parse,
{
    let name = match get_required_string(t, "name") {
        Ok(v) => v,
        Err(e) => {
            return Err(e);
        },
    };
    let tarball_prefix = match get_required_string(t, "tarball_prefix") {
        Ok(v) => v,
        Err(e) => {
            return Err(e);
        },
    };
    let repository_name = match get_required_string(t, "repository_name") {
        Ok(v) => v,
        Err(e) => {
            return Err(e);
        },
    };
    let executables = match get_required_string_list(t, "executables") {
        Ok(v) => v,
        Err(e) => {
            return Err(e);
        },
    };
    let targets = match get_required_string_list(t, "targets") {
        Ok(v) => v,
        Err(e) => {
            return Err(e);
        },
    };
    let is_plugin = match get_optional_bool(t, "is_plugin") {
        Ok(v) => v,
        Err(e) => {
            return Err(e);
        },
    };
    let publish = match get_optional_bool(t, "publish") {
        Ok(v) => v,
        Err(e) => {
            return Err(e);
        },
    };
    Ok(
        Component {
            name,
            is_plugin,
            tarball_prefix,
            executables,
            repository_name,
            targets,
            publish,
        },
    )
}

impl Components {
    /// Parses manifest text into the registry.
    ///
    /// Succeeds exactly on a well-formed manifest, and then returns one
    /// record per section, keyed and ordered as in the document.
    pub fn from_toml(toml: &str) -> (r: Result<Components, ComponentError>)
        ensures
            r is Ok <==> manifest_ok(toml@),
            r matches Ok(cs) ==> cs@ == manifest_view(toml@),
            r matches Err(e) ==> e is Parse,
    {
        let doc = match parse_document(toml) {
            Ok(d) => d,
            Err(_) => {
                return Err(ComponentError::Parse);
            },
        };
        let root = document_root(&doc);
        let comp_item = match table_get(root, "component") {
            Some(i) => i,
            None => {
                return Err(ComponentError::Parse);
            },
        };
        let comp_table = match item_as_table(comp_item) {
            Some(t) => t,
            None => {
                return Err(ComponentError::Parse);
            },
        };
        let ghost secs = table_model(*comp_table);
        proof {
            assert(secs == manifest_sections(toml@));
        }
        let keys = table_keys(comp_table);
        proof {
            assert(keys@.map_values(|s: String| s@).len() == keys@.len());
            assert(entry_keys(secs).len() == secs.len());
        }
        let mut out: Vec<(String, Component)> = Vec::new();
        let mut idx: usize = 0;
        while idx < keys.len()
            invariant
                secs == table_model(*comp_table),
                secs == manifest_sections(toml@),
                unique_keys(secs),
                toml_doc(toml@) matches Some(root_entries) && find_entry(root_entries, "component"@)
                    matches Some(TomlData::Table(_)),
                keys@.map_values(|s: String| s@) == entry_keys(secs),
                keys@.len() == secs.len(),
                0 <= idx <= keys@.len(),
                forall|j: int|
                    0 <= j < idx ==> (#[trigger] secs[j].1) is Table && section_ok(
                        sub_entries(secs[j].1),
                    ),
                out@.map_values(|p: (String, Component)| (p.0@, p.1@)) == secs.take(
                    idx as int,
                ).map_values(|e: (Seq<char>, TomlData)| section_pair(e)),
            decreases keys@.len() - idx,
        {
            let key = &keys[idx];
            proof {
                assert(keys@.map_values(|s: String| s@)[idx as int] == entry_keys(
                    secs,
                )[idx as int]);
                assert(key@ == secs[idx as int].0);
                lemma_find_entry_at(secs, idx as int);
            }
            let item = match table_get(comp_table, key.as_str()) {
                Some(i) => i,
                None => {
                    return Err(ComponentError::Parse);
                },
            };
            let sec_table = match item_as_table(item) {
                Some(t) => t,
                None => {
                    proof {
                        assert(!((manifest_sections(toml@)[idx as int].1) is Table));
                    }
                    return Err(ComponentError::Parse);
                },
            };
            let comp = match read_component(sec_table) {
                Ok(c) => c,
                Err(_) => {
                    proof {
                        assert(!section_ok(sub_entries(manifest_sections(toml@)[idx as int].1)));
                    }
                    return Err(ComponentError::Parse);
                },
            };
            let entry = (key.clone(), comp);
            proof {
                secs.lemma_map_take_succ(|e: (Seq<char>, TomlData)| section_pair(e), idx as int);
                out@.lemma_push_map_commute(|p: (String, Component)| (p.0@, p.1@), entry);
                assert(section_pair(secs[idx as int]) == (entry.0@, entry.1@));
            }
            out.push(entry);
            idx = idx + 1;
        }
        proof {
            assert(secs.take(secs.len() as int) =~= secs);
        }
        Ok(Components { component: out })
    }
}

} // verus!
