//! The query surface of the registry.
//!
//! Every query parses the embedded manifest afresh and then filters, sorts
//! or flattens the records; nothing is cached and nothing is mutated, so
//! each query is a function of the embedded text alone.

use vstd::prelude::*;
use vstd::utf8::encode_utf8;
use vstd::string::StringSliceAdditionalSpecFns;
use crate::model::{find_entry, lemma_find_entry_first, lemma_find_entry_none};
use crate::order::{
    str_lt, is_sub, find_sub, stable_sort, sorted_by_lt, lemma_insert_by_at,
    lemma_stable_sort_multiset, lemma_stable_sort_sorted, lemma_map_values_insert,
    lemma_bytes_lt_asymmetric, lemma_bytes_lt_transitive, lemma_filter_take_succ,
};
use crate::parse::{manifest_ok, manifest_view};
use crate::records::{
    Component, ComponentError, ComponentView, Components, Plugin, PluginView, FUELUP,
    component_name_lt, plugin_name_lt,
};

verus! {

/// The embedded manifest: the one source of record data in this crate.
pub const COMPONENTS_TOML: &'static str = r#"[component.forc]
name = "forc"
tarball_prefix = "forc-binaries"
executables = ["forc"]
repository_name = "sway"
targets = ["linux_amd64", "linux_arm64", "darwin_amd64", "darwin_arm64"]
publish = true

[component.forc-client]
name = "forc-client"
is_plugin = true
tarball_prefix = "forc-binaries"
executables = ["forc-deploy", "forc-run"]
repository_name = "sway"
targets = ["linux_amd64", "linux_arm64", "darwin_amd64", "darwin_arm64"]
publish = true

[component.forc-crypto]
name = "forc-crypto"
is_plugin = true
tarball_prefix = "forc-binaries"
executables = ["forc-crypto"]
repository_name = "sway"
targets = ["linux_amd64", "linux_arm64", "darwin_amd64", "darwin_arm64"]
publish = true

[component.forc-doc]
name = "forc-doc"
is_plugin = true
tarball_prefix = "forc-binaries"
executables = ["forc-doc"]
repository_name = "sway"
targets = ["linux_amd64", "linux_arm64", "darwin_amd64", "darwin_arm64"]
publish = true

[component.forc-fmt]
name = "forc-fmt"
is_plugin = true
tarball_prefix = "forc-binaries"
executables = ["forc-fmt"]
repository_name = "sway"
targets = ["linux_amd64", "linux_arm64", "darwin_amd64", "darwin_arm64"]
publish = true

[component.forc-lsp]
name = "forc-lsp"
is_plugin = true
tarball_prefix = "forc-binaries"
executables = ["forc-lsp"]
repository_name = "sway"
targets = ["linux_amd64", "linux_arm64", "darwin_amd64", "darwin_arm64"]
publish = true

[component.forc-wallet]
name = "forc-wallet"
is_plugin = true
tarball_prefix = "forc-wallet"
executables = ["forc-wallet"]
repository_name = "forc-wallet"
targets = ["linux_amd64", "linux_arm64", "darwin_amd64", "darwin_arm64"]
publish = true

[component.fuel-core]
name = "fuel-core"
tarball_prefix = "fuel-core"
executables = ["fuel-core", "fuel-core-keygen"]
repository_name = "fuel-core"
targets = ["linux_amd64", "linux_arm64", "darwin_amd64", "darwin_arm64"]
publish = true
"#;

/// The records of a manifest, without their mapping keys.
pub open spec fn registry_views(text: Seq<char>) -> Seq<ComponentView> {
    manifest_view(text).map_values(|e: (Seq<char>, ComponentView)| e.1)
}

/// The records whose `publish` field is present, in manifest order.
pub open spec fn publishable_views(text: Seq<char>) -> Seq<ComponentView> {
    registry_views(text).filter(|c: ComponentView| c.publish is Some)
}

/// The records with no `is_plugin` opinion at all, in manifest order.
pub open spec fn main_views(text: Seq<char>) -> Seq<ComponentView> {
    registry_views(text).filter(|c: ComponentView| c.is_plugin is None)
}

/// The plugin records, reduced to the plugin view, in manifest order.
pub open spec fn plugin_views(text: Seq<char>) -> Seq<PluginView> {
    registry_views(text).filter(|c: ComponentView| c.is_plugin == Some(true)).map_values(
        |c: ComponentView| PluginView { name: c.name, executables: c.executables },
    )
}

/// The executables of a run of plugins, concatenated in order.
pub open spec fn flat_execs(ps: Seq<PluginView>) -> Seq<Seq<char>>
    decreases ps.len(),
{
    if ps.len() == 0 {
        Seq::empty()
    } else {
        flat_execs(ps.drop_last()) + ps.last().executables
    }
}

/// The names of a run of records, concatenated as UTF-8 bytes.
pub open spec fn names_bytes(s: Seq<ComponentView>) -> Seq<u8>
    decreases s.len(),
{
    if s.len() == 0 {
        Seq::empty()
    } else {
        names_bytes(s.drop_last()) + encode_utf8(s.last().name)
    }
}

/// The record synthesized for the one name that is never in the manifest.
pub open spec fn fuelup_view() -> ComponentView {
    ComponentView {
        name: FUELUP@,
        is_plugin: Some(false),
        tarball_prefix: FUELUP@,
        executables: seq![FUELUP@],
        repository_name: FUELUP@,
        targets: seq![FUELUP@],
        publish: Some(true),
    }
}

fn insert_pos_component(out: &Vec<Component>, x: &Component) -> (j: usize)
    ensures
        0 <= j <= out@.len(),
        forall|k: int| 0 <= k < j ==> !component_name_lt(x@, #[trigger] out@[k]@),
        j < out@.len() ==> component_name_lt(x@, out@[j as int]@),
{
    let mut j: usize = 0;
    while j < out.len()
        invariant
            0 <= j <= out@.len(),
            forall|k: int| 0 <= k < j ==> !component_name_lt(x@, #[trigger] out@[k]@),
        decreases out@.len() - j,
    {
        if str_lt(x.name.as_str(), out[j].name.as_str()) {
            return j;
        }
        j = j + 1;
    }
    j
}

/// Stable insertion sort of component records by name.
fn sort_components(v: Vec<Component>) -> (r: Vec<Component>)
    ensures
        r@.map_values(|c: Component| c@) == stable_sort(
            v@.map_values(|c: Component| c@),
            |a: ComponentView, b: ComponentView| component_name_lt(a, b),
        ),
{
    let ghost lt = |a: ComponentView, b: ComponentView| component_name_lt(a, b);
    let ghost views = v@.map_values(|c: Component| c@);
    let mut out: Vec<Component> = Vec::new();
    let mut i: usize = 0;
    while i < v.len()
        invariant
            lt == (|a: ComponentView, b: ComponentView| component_name_lt(a, b)),
            views == v@.map_values(|c: Component| c@),
            views.len() == v@.len(),
            0 <= i <= v@.len(),
            out@.map_values(|c: Component| c@) == stable_sort(views.take(i as int), lt),
        decreases v@.len() - i,
    {
        let x = v[i].duplicate();
        proof {
            assert(views[i as int] == v@[i as int]@);
        }
        let j = insert_pos_component(&out, &x);
        proof {
            let outv = out@.map_values(|c: Component| c@);
            assert(outv.len() == out@.len());
            assert forall|k: int| 0 <= k < j implies !lt(x@, #[trigger] outv[k]) by {
                assert(outv[k] == out@[k]@);
            }
            if (j as int) < outv.len() {
                assert(outv[j as int] == out@[j as int]@);
            }
            lemma_insert_by_at(x@, outv, lt, j as int);
            lemma_map_values_insert(out@, j as int, x, |c: Component| c@);
            assert(views.take(i + 1).drop_last() =~= views.take(i as int));
            assert(views.take(i + 1).last() == views[i as int]);
        }
        out.insert(j, x);
        i = i + 1;
    }
    proof {
        assert(views.take(views.len() as int) =~= views);
    }
    out
}

fn insert_pos_plugin(out: &Vec<Plugin>, x: &Plugin) -> (j: usize)
    ensures
        0 <= j <= out@.len(),
        forall|k: int| 0 <= k < j ==> !plugin_name_lt(x@, #[trigger] out@[k]@),
        j < out@.len() ==> plugin_name_lt(x@, out@[j as int]@),
{
    let mut j: usize = 0;
    while j < out.len()
        invariant
            0 <= j <= out@.len(),
            forall|k: int| 0 <= k < j ==> !plugin_name_lt(x@, #[trigger] out@[k]@),
        decreases out@.len() - j,
    {
        if str_lt(x.name.as_str(), out[j].name.as_str()) {
            return j;
        }
        j = j + 1;
    }
    j
}

/// Stable insertion sort of plugin records by name.
fn sort_plugins(v: Vec<Plugin>) -> (r: Vec<Plugin>)
    ensures
        r@.map_values(|p: Plugin| p@) == stable_sort(
            v@.map_values(|p: Plugin| p@),
            |a: PluginView, b: PluginView| plugin_name_lt(a, b),
        ),
{
    let ghost lt = |a: PluginView, b: PluginView| plugin_name_lt(a, b);
    let ghost views = v@.map_values(|p: Plugin| p@);
    let mut out: Vec<Plugin> = Vec::new();
    let mut i: usize = 0;
    while i < v.len()
        invariant
            lt == (|a: PluginView, b: PluginView| plugin_name_lt(a, b)),
            views == v@.map_values(|p: Plugin| p@),
            views.len() == v@.len(),
            0 <= i <= v@.len(),
            out@.map_values(|p: Plugin| p@) == stable_sort(views.take(i as int), lt),
        decreases v@.len() - i,
    {
        let x = Plugin {
            name: v[i].name.clone(),
            executables: crate::records::clone_strings(&v[i].executables),
        };
        proof {
            assert(views[i as int] == v@[i as int]@);
            assert(x@ == views[i as int]);
        }
        let j = insert_pos_plugin(&out, &x);
        proof {
            let outv = out@.map_values(|p: Plugin| p@);
            assert(outv.len() == out@.len());
            assert forall|k: int| 0 <= k < j implies !lt(x@, #[trigger] outv[k]) by {
                assert(outv[k] == out@[k]@);
            }
            if (j as int) < outv.len() {
                assert(outv[j as int] == out@[j as int]@);
            }
            lemma_insert_by_at(x@, outv, lt, j as int);
            lemma_map_values_insert(out@, j as int, x, |p: Plugin| p@);
            assert(views.take(i + 1).drop_last() =~= views.take(i as int));
            assert(views.take(i + 1).last() == views[i as int]);
        }
        out.insert(j, x);
        i = i + 1;
    }
    proof {
        assert(views.take(views.len() as int) =~= views);
    }
    out
}

/// The name order on component records is transitive and has no cycle of
/// two, so sorting by it leaves a sorted sequence.
proof fn lemma_component_order_well_behaved()
    ensures
        forall|p: ComponentView, q: ComponentView, r: ComponentView|
            #[trigger] component_name_lt(p, q) && #[trigger] component_name_lt(q, r)
                ==> component_name_lt(p, r),
        forall|p: ComponentView, q: ComponentView|
            !(#[trigger] component_name_lt(p, q) && #[trigger] component_name_lt(q, p)),
{
    assert forall|p: ComponentView, q: ComponentView, r: ComponentView|
        #[trigger] component_name_lt(p, q) && #[trigger] component_name_lt(q, r)
            implies component_name_lt(p, r) by {
        lemma_bytes_lt_transitive(encode_utf8(p.name), encode_utf8(q.name), encode_utf8(r.name));
    }
    assert forall|p: ComponentView, q: ComponentView|
        !(#[trigger] component_name_lt(p, q) && #[trigger] component_name_lt(q, p)) by {
        lemma_bytes_lt_asymmetric(encode_utf8(p.name), encode_utf8(q.name));
    }
}

/// The name order on plugin records, likewise.
proof fn lemma_plugin_order_well_behaved()
    ensures
        forall|p: PluginView, q: PluginView, r: PluginView|
            #[trigger] plugin_name_lt(p, q) && #[trigger] plugin_name_lt(q, r) ==> plugin_name_lt(
                p,
                r,
            ),
        forall|p: PluginView, q: PluginView|
            !(#[trigger] plugin_name_lt(p, q) && #[trigger] plugin_name_lt(q, p)),
{
    assert forall|p: PluginView, q: PluginView, r: PluginView|
        #[trigger] plugin_name_lt(p, q) && #[trigger] plugin_name_lt(q, r) implies plugin_name_lt(
        p,
        r,
    ) by {
        lemma_bytes_lt_transitive(encode_utf8(p.name), encode_utf8(q.name), encode_utf8(r.name));
    }
    assert forall|p: PluginView, q: PluginView|
        !(#[trigger] plugin_name_lt(p, q) && #[trigger] plugin_name_lt(q, p)) by {
        lemma_bytes_lt_asymmetric(encode_utf8(p.name), encode_utf8(q.name));
    }
}

impl Components {
    /// Parses the embedded manifest.
    pub fn collect() -> (r: Result<Components, ComponentError>)
        ensures
            r is Ok <==> manifest_ok(COMPONENTS_TOML@),
            r matches Ok(cs) ==> cs@ == manifest_view(COMPONENTS_TOML@),
            r matches Err(e) ==> e is Parse,
    {
        Self::from_toml(COMPONENTS_TOML)
    }

    /// Every component whose `publish` field is present (whatever its
    /// value), sorted ascending by name.
    pub fn collect_publishables() -> (r: Result<Vec<Component>, ComponentError>)
        ensures
            r is Ok <==> manifest_ok(COMPONENTS_TOML@),
            r matches Ok(v) ==> v@.map_values(|c: Component| c@) == stable_sort(
                publishable_views(COMPONENTS_TOML@),
                |a: ComponentView, b: ComponentView| component_name_lt(a, b),
            ),
            r matches Ok(v) ==> sorted_by_lt(
                v@.map_values(|c: Component| c@),
                |a: ComponentView, b: ComponentView| component_name_lt(a, b),
            ) && forall|i: int| 0 <= i < v@.len() ==> (#[trigger] v@[i]@).publish is Some,
            r matches Err(e) ==> e is Parse,
    {
        let cs = match Self::collect() {
            Ok(cs) => cs,
            Err(e) => {
                return Err(e);
            },
        };
        let ghost lt = |a: ComponentView, b: ComponentView| component_name_lt(a, b);
        let ghost pred = |c: ComponentView| c.publish is Some;
        let ghost all = registry_views(COMPONENTS_TOML@);
        let mut picked: Vec<Component> = Vec::new();
        let mut i: usize = 0;
        proof {
            assert(all.len() == cs@.len());
        }
        while i < cs.component.len()
            invariant
                pred == (|c: ComponentView| c.publish is Some),
                cs@ == manifest_view(COMPONENTS_TOML@),
                all == registry_views(COMPONENTS_TOML@),
                all.len() == cs.component@.len(),
                0 <= i <= cs.component@.len(),
                picked@.map_values(|c: Component| c@) == all.take(i as int).filter(pred),
            decreases cs.component@.len() - i,
        {
            proof {
                assert(all[i as int] == cs@[i as int].1);
                assert(cs@[i as int].1 == cs.component@[i as int].1@);
            }
            let keep = cs.component[i].1.publish.is_some();
            proof {
                lemma_filter_take_succ(all, pred, i as int);
                assert(keep == pred(all[i as int]));
            }
            if keep {
                let x = cs.component[i].1.duplicate();
                proof {
                    assert(x@ == all[i as int]);
                    picked@.lemma_push_map_commute(|c: Component| c@, x);
                }
                picked.push(x);
            }
            i = i + 1;
        }
        proof {
            assert(all.take(all.len() as int) =~= all);
        }
        let sorted = sort_components(picked);
        proof {
            lemma_component_order_well_behaved();
            lemma_stable_sort_sorted(publishable_views(COMPONENTS_TOML@), lt);
            lemma_stable_sort_multiset(publishable_views(COMPONENTS_TOML@), lt);
            broadcast use vstd::seq_lib::group_to_multiset_ensures;
            broadcast use vstd::seq_lib::group_filter_ensures;

            let sv = sorted@.map_values(|c: Component| c@);
            let pv = publishable_views(COMPONENTS_TOML@);
            assert forall|i2: int| 0 <= i2 < sv.len() implies (#[trigger] sv[i2]).publish
                is Some by {
                assert(sv.contains(sv[i2]));
                assert(pv.to_multiset().count(sv[i2]) > 0);
                assert(pv.contains(sv[i2]));
            }
            assert forall|i2: int| 0 <= i2 < sorted@.len() implies (#[trigger] sorted@[i2]@).publish
                is Some by {
                assert(sv[i2] == sorted@[i2]@);
            }
        }
        Ok(sorted)
    }

    /// Every component with no recorded `is_plugin` opinion (an explicit
    /// `false` is excluded as well), sorted ascending by name.
    pub fn collect_exclude_plugins() -> (r: Result<Vec<Component>, ComponentError>)
        ensures
            r is Ok <==> manifest_ok(COMPONENTS_TOML@),
            r matches Ok(v) ==> v@.map_values(|c: Component| c@) == stable_sort(
                main_views(COMPONENTS_TOML@),
                |a: ComponentView, b: ComponentView| component_name_lt(a, b),
            ),
            r matches Ok(v) ==> sorted_by_lt(
                v@.map_values(|c: Component| c@),
                |a: ComponentView, b: ComponentView| component_name_lt(a, b),
            ) && forall|i: int| 0 <= i < v@.len() ==> (#[trigger] v@[i]@).is_plugin is None,
            r matches Err(e) ==> e is Parse,
    {
        let cs = match Self::collect() {
            Ok(cs) => cs,
            Err(e) => {
                return Err(e);
            },
        };
        let ghost lt = |a: ComponentView, b: ComponentView| component_name_lt(a, b);
        let ghost pred = |c: ComponentView| c.is_plugin is None;
        let ghost all = registry_views(COMPONENTS_TOML@);
        let mut picked: Vec<Component> = Vec::new();
        let mut i: usize = 0;
        proof {
            assert(all.len() == cs@.len());
        }
        while i < cs.component.len()
            invariant
                pred == (|c: ComponentView| c.is_plugin is None),
                cs@ == manifest_view(COMPONENTS_TOML@),
                all == registry_views(COMPONENTS_TOML@),
                all.len() == cs.component@.len(),
                0 <= i <= cs.component@.len(),
                picked@.map_values(|c: Component| c@) == all.take(i as int).filter(pred),
            decreases cs.component@.len() - i,
        {
            proof {
                assert(all[i as int] == cs@[i as int].1);
                assert(cs@[i as int].1 == cs.component@[i as int].1@);
            }
            let keep = cs.component[i].1.is_plugin.is_none();
            proof {
                lemma_filter_take_succ(all, pred, i as int);
                assert(keep == pred(all[i as int]));
            }
            if keep {
                let x = cs.component[i].1.duplicate();
                proof {
                    assert(x@ == all[i as int]);
                    picked@.lemma_push_map_commute(|c: Component| c@, x);
                }
                picked.push(x);
            }
            i = i + 1;
        }
        proof {
            assert(all.take(all.len() as int) =~= all);
        }
        let sorted = sort_components(picked);
        proof {
            lemma_component_order_well_behaved();
            lemma_stable_sort_sorted(main_views(COMPONENTS_TOML@), lt);
            lemma_stable_sort_multiset(main_views(COMPONENTS_TOML@), lt);
            broadcast use vstd::seq_lib::group_to_multiset_ensures;
            broadcast use vstd::seq_lib::group_filter_ensures;

            let sv = sorted@.map_values(|c: Component| c@);
            let pv = main_views(COMPONENTS_TOML@);
            assert forall|i2: int| 0 <= i2 < sv.len() implies (#[trigger] sv[i2]).is_plugin
                is None by {
                assert(sv.contains(sv[i2]));
                assert(pv.to_multiset().count(sv[i2]) > 0);
                assert(pv.contains(sv[i2]));
            }
            assert forall|i2: int| 0 <= i2 < sorted@.len() implies (
            #[trigger] sorted@[i2]@).is_plugin is None by {
                assert(sv[i2] == sorted@[i2]@);
            }
        }
        Ok(sorted)
    }

    /// Every component explicitly flagged `is_plugin = true`, reduced to the
    /// plugin view and sorted ascending by name.
    pub fn collect_plugins() -> (r: Result<Vec<Plugin>, ComponentError>)
        ensures
            r is Ok <==> manifest_ok(COMPONENTS_TOML@),
            r matches Ok(v) ==> v@.map_values(|p: Plugin| p@) == stable_sort(
                plugin_views(COMPONENTS_TOML@),
                |a: PluginView, b: PluginView| plugin_name_lt(a, b),
            ),
            r matches Ok(v) ==> sorted_by_lt(
                v@.map_values(|p: Plugin| p@),
                |a: PluginView, b: PluginView| plugin_name_lt(a, b),
            ),
            r matches Err(e) ==> e is Parse,
    {
        let cs = match Self::collect() {
            Ok(cs) => cs,
            Err(e) => {
                return Err(e);
            },
        };
        let ghost lt = |a: PluginView, b: PluginView| plugin_name_lt(a, b);
        let ghost pred = |c: ComponentView| c.is_plugin == Some(true);
        let ghost pmap = |c: ComponentView| PluginView { name: c.name, executables: c.executables };
        let ghost all = registry_views(COMPONENTS_TOML@);
        let mut picked: Vec<Plugin> = Vec::new();
        let mut i: usize = 0;
        proof {
            assert(all.len() == cs@.len());
        }
        while i < cs.component.len()
            invariant
                pred == (|c: ComponentView| c.is_plugin == Some(true)),
                pmap == (|c: ComponentView| PluginView { name: c.name, executables: c.executables }),
                cs@ == manifest_view(COMPONENTS_TOML@),
                all == registry_views(COMPONENTS_TOML@),
                all.len() == cs.component@.len(),
                0 <= i <= cs.component@.len(),
                picked@.map_values(|p: Plugin| p@) == all.take(i as int).filter(pred).map_values(
                    pmap,
                ),
            decreases cs.component@.len() - i,
        {
            proof {
                assert(all[i as int] == cs@[i as int].1);
                assert(cs@[i as int].1 == cs.component@[i as int].1@);
            }
            let c = &cs.component[i].1;
            let keep = match c.is_plugin {
                Some(b) => b,
                None => false,
            };
            proof {
                lemma_filter_take_succ(all, pred, i as int);
                assert(keep == pred(all[i as int]));
            }
            if keep {
                let p = Plugin { name: c.name.clone(), executables: crate::records::clone_strings(
                    &c.executables,
                ) };
                proof {
                    let fl = all.take(i as int).filter(pred);
                    fl.lemma_push_map_commute(pmap, all[i as int]);
                    assert(p@.name == all[i as int].name);
                    assert(p@.executables == all[i as int].executables);
                    assert(p@ == pmap(all[i as int]));
                    picked@.lemma_push_map_commute(|q: Plugin| q@, p);
                }
                picked.push(p);
            }
            i = i + 1;
        }
        proof {
            assert(all.take(all.len() as int) =~= all);
        }
        let sorted = sort_plugins(picked);
        proof {
            lemma_plugin_order_well_behaved();
            lemma_stable_sort_sorted(plugin_views(COMPONENTS_TOML@), lt);
        }
        Ok(sorted)
    }

    /// The executables of every plugin, flattened in plugin-sort order, with
    /// no deduplication.
    pub fn collect_plugin_executables() -> (r: Result<Vec<String>, ComponentError>)
        ensures
            r is Ok <==> manifest_ok(COMPONENTS_TOML@),
            r matches Ok(v) ==> v@.map_values(|s: String| s@) == flat_execs(
                stable_sort(
                    plugin_views(COMPONENTS_TOML@),
                    |a: PluginView, b: PluginView| plugin_name_lt(a, b),
                ),
            ),
            r matches Err(e) ==> e is Parse,
    {
        let plugins = match Self::collect_plugins() {
            Ok(v) => v,
            Err(e) => {
                return Err(e);
            },
        };
        let ghost ps = plugins@.map_values(|p: Plugin| p@);
        let mut out: Vec<String> = Vec::new();
        let mut i: usize = 0;
        while i < plugins.len()
            invariant
                ps == plugins@.map_values(|p: Plugin| p@),
                ps.len() == plugins@.len(),
                0 <= i <= plugins@.len(),
                out@.map_values(|s: String| s@) == flat_execs(ps.take(i as int)),
            decreases plugins@.len() - i,
        {
            proof {
                assert(ps.take(i + 1).drop_last() =~= ps.take(i as int));
                assert(ps.take(i + 1).last() == ps[i as int]);
                assert(ps[i as int] == plugins@[i as int]@);
            }
            let mut chunk = crate::records::clone_strings(&plugins[i].executables);
            let ghost prev = out@;
            out.append(&mut chunk);
            proof {
                assert forall|k: int| 0 <= k < out@.len() implies out@.map_values(
                    |s: String| s@,
                )[k] == #[trigger] flat_execs(ps.take(i + 1))[k] by {
                    if k < prev.len() {
                        assert(prev.map_values(|s: String| s@)[k] == flat_execs(
                            ps.take(i as int),
                        )[k]);
                    }
                }
                assert(out@.map_values(|s: String| s@) =~= flat_execs(ps.take(i + 1)));
            }
            i = i + 1;
        }
        proof {
            assert(ps.take(ps.len() as int) =~= ps);
        }
        Ok(out)
    }

    /// Whether `name` occurs as a substring of the concatenation of all
    /// publishable components' names.  This reproduces the historical
    /// substring check faithfully; it can answer `true` for a name that is
    /// no component but straddles a concatenation boundary.
    ///
    /// Callers that cannot establish that the embedded manifest is
    /// well-formed use [`Components::checked_contains_published`].
    pub fn contains_published(name: &str) -> (r: bool)
        requires
            manifest_ok(COMPONENTS_TOML@),
        ensures
            r == is_sub(
                names_bytes(
                    stable_sort(
                        publishable_views(COMPONENTS_TOML@),
                        |a: ComponentView, b: ComponentView| component_name_lt(a, b),
                    ),
                ),
                encode_utf8(name@),
            ),
    {
        let list = match Self::collect_publishables() {
            Ok(v) => v,
            Err(_) => {
                proof {
                    assert(false);
                }
                return false;
            },
        };
        let ghost lv = list@.map_values(|c: Component| c@);
        let mut cat: Vec<u8> = Vec::new();
        let mut i: usize = 0;
        while i < list.len()
            invariant
                lv == list@.map_values(|c: Component| c@),
                lv.len() == list@.len(),
                0 <= i <= list@.len(),
                cat@ == names_bytes(lv.take(i as int)),
            decreases list@.len() - i,
        {
            proof {
                assert(lv.take(i + 1).drop_last() =~= lv.take(i as int));
                assert(lv.take(i + 1).last() == lv[i as int]);
                assert(lv[i as int] == list@[i as int]@);
            }
            let bs = list[i].name.as_str().as_bytes();
            let mut k: usize = 0;
            let ghost prev = cat@;
            while k < bs.len()
                invariant
                    bs@ == encode_utf8(lv[i as int].name),
                    0 <= k <= bs@.len(),
                    cat@ == prev + bs@.take(k as int),
                decreases bs@.len() - k,
            {
                cat.push(bs[k]);
                proof {
                    assert(prev + bs@.take(k + 1) =~= (prev + bs@.take(k as int)).push(
                        bs@[k as int],
                    ));
                }
                k = k + 1;
            }
            proof {
                assert(bs@.take(bs@.len() as int) =~= bs@);
            }
            i = i + 1;
        }
        proof {
            assert(lv.take(lv.len() as int) =~= lv);
        }
        find_sub(cat.as_slice(), name.as_bytes())
    }

    /// Like [`Components::contains_published`], with the well-formedness of
    /// the embedded manifest checked at run time: `None` when the manifest
    /// does not parse.
    pub fn checked_contains_published(name: &str) -> (r: Option<bool>)
        ensures
            r is Some <==> manifest_ok(COMPONENTS_TOML@),
            r matches Some(b) ==> b == is_sub(
                names_bytes(
                    stable_sort(
                        publishable_views(COMPONENTS_TOML@),
                        |a: ComponentView, b: ComponentView| component_name_lt(a, b),
                    ),
                ),
                encode_utf8(name@),
            ),
    {
        match Self::collect() {
            Ok(_) => Some(Self::contains_published(name)),
            Err(_) => None,
        }
    }
}

impl Component {
    /// The record registered under `name`.
    ///
    /// The one name never taken from the manifest is `fuelup`: it returns
    /// the synthesized record whatever the manifest holds.  Any other name
    /// is looked up in the parsed manifest; a parse failure propagates, and
    /// an unknown name fails with `NotFound`, carrying the name.
    pub fn from_name(name: &str) -> (r: Result<Component, ComponentError>)
        ensures
            name@ == FUELUP@ ==> (r matches Ok(c) && c@ == fuelup_view()),
            name@ != FUELUP@ && !manifest_ok(COMPONENTS_TOML@) ==> (r matches Err(e) && e
                is Parse),
            name@ != FUELUP@ && manifest_ok(COMPONENTS_TOML@) ==> {
                &&& r is Ok <==> find_entry(manifest_view(COMPONENTS_TOML@), name@) is Some
                &&& r matches Ok(c) ==> Some(c@) == find_entry(
                    manifest_view(COMPONENTS_TOML@),
                    name@,
                )
                &&& find_entry(manifest_view(COMPONENTS_TOML@), name@) is None ==> (r matches Err(
                    e,
                ) && e matches ComponentError::NotFound(n) && n@ == name@)
            },
    {
        let name_string = name.to_owned();
        let fuelup_string = FUELUP.to_owned();
        if name_string == fuelup_string {
            let c = Component {
                name: FUELUP.to_owned(),
                tarball_prefix: FUELUP.to_owned(),
                executables: vec![FUELUP.to_owned()],
                repository_name: FUELUP.to_owned(),
                targets: vec![FUELUP.to_owned()],
                is_plugin: Some(false),
                publish: Some(true),
            };
            proof {
                assert(c@.executables =~= seq![FUELUP@]);
                assert(c@.targets =~= seq![FUELUP@]);
                assert(c@ == fuelup_view());
            }
            return Ok(c);
        }
        let cs = match Components::collect() {
            Ok(cs) => cs,
            Err(e) => {
                return Err(e);
            },
        };
        let mut i: usize = 0;
        while i < cs.component.len()
            invariant
                name_string@ == name@,
                name@ != FUELUP@,
                manifest_ok(COMPONENTS_TOML@),
                cs@ == manifest_view(COMPONENTS_TOML@),
                cs@.len() == cs.component@.len(),
                0 <= i <= cs.component@.len(),
                forall|k: int| 0 <= k < i ==> (#[trigger] cs@[k]).0 != name@,
            decreases cs.component@.len() - i,
        {
            proof {
                assert(cs@[i as int].0 == cs.component@[i as int].0@);
            }
            if cs.component[i].0 == name_string {
                proof {
                    assert(cs.component@[i as int].0@ == name_string@);
                    assert(cs@[i as int].0 == name@);
                    lemma_find_entry_first(cs@, name@, i as int);
                }
                return Ok(cs.component[i].1.duplicate());
            }
            i = i + 1;
        }
        proof {
            lemma_find_entry_none(cs@, name@);
        }
        Err(ComponentError::NotFound(name_string))
    }
}

} // verus!
