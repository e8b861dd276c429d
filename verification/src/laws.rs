//! Laws of the query surface.
//!
//! Every query is a pure function of the embedded manifest text, so two
//! successive calls with no intervening change return equal results.  Each
//! lemma below takes two values that satisfy the corresponding query's
//! contract and concludes that they are the same outcome: success on both
//! sides with equal records, or the same failure.

use vstd::prelude::*;
use vstd::utf8::encode_utf8;
use crate::model::find_entry;
use crate::order::{is_sub, stable_sort};
use crate::parse::{manifest_ok, manifest_view};
use crate::queries::{
    COMPONENTS_TOML, publishable_views, main_views, plugin_views, flat_execs, names_bytes,
    fuelup_view,
};
use crate::records::{
    Component, ComponentError, ComponentView, Components, Plugin, PluginView, FUELUP,
    component_name_lt, plugin_name_lt,
};

verus! {

/// Two outcomes of `Components::collect` are the same outcome.
pub proof fn lemma_collect_idempotent(
    r1: Result<Components, ComponentError>,
    r2: Result<Components, ComponentError>,
)
    requires
        r1 is Ok <==> manifest_ok(COMPONENTS_TOML@),
        r1 matches Ok(cs) ==> cs@ == manifest_view(COMPONENTS_TOML@),
        r1 matches Err(e) ==> e is Parse,
        r2 is Ok <==> manifest_ok(COMPONENTS_TOML@),
        r2 matches Ok(cs) ==> cs@ == manifest_view(COMPONENTS_TOML@),
        r2 matches Err(e) ==> e is Parse,
    ensures
        r1 is Ok <==> r2 is Ok,
        r1 matches Ok(a) ==> (r2 matches Ok(b) && a@ == b@),
        r1 matches Err(a) ==> (r2 matches Err(b) && a is Parse && b is Parse),
{
}

/// Two outcomes of `Components::collect_publishables` are the same outcome.
pub proof fn lemma_collect_publishables_idempotent(
    r1: Result<Vec<Component>, ComponentError>,
    r2: Result<Vec<Component>, ComponentError>,
)
    requires
        r1 is Ok <==> manifest_ok(COMPONENTS_TOML@),
        r1 matches Ok(v) ==> v@.map_values(|c: Component| c@) == stable_sort(
            publishable_views(COMPONENTS_TOML@),
            |a: ComponentView, b: ComponentView| component_name_lt(a, b),
        ),
        r1 matches Err(e) ==> e is Parse,
        r2 is Ok <==> manifest_ok(COMPONENTS_TOML@),
        r2 matches Ok(v) ==> v@.map_values(|c: Component| c@) == stable_sort(
            publishable_views(COMPONENTS_TOML@),
            |a: ComponentView, b: ComponentView| component_name_lt(a, b),
        ),
        r2 matches Err(e) ==> e is Parse,
    ensures
        r1 is Ok <==> r2 is Ok,
        r1 matches Ok(a) ==> (r2 matches Ok(b) && a@.map_values(|c: Component| c@)
            == b@.map_values(|c: Component| c@)),
        r1 matches Err(a) ==> (r2 matches Err(b) && a is Parse && b is Parse),
{
}

/// Two outcomes of `Components::collect_exclude_plugins` are the same
/// outcome.
pub proof fn lemma_collect_exclude_plugins_idempotent(
    r1: Result<Vec<Component>, ComponentError>,
    r2: Result<Vec<Component>, ComponentError>,
)
    requires
        r1 is Ok <==> manifest_ok(COMPONENTS_TOML@),
        r1 matches Ok(v) ==> v@.map_values(|c: Component| c@) == stable_sort(
            main_views(COMPONENTS_TOML@),
            |a: ComponentView, b: ComponentView| component_name_lt(a, b),
        ),
        r1 matches Err(e) ==> e is Parse,
        r2 is Ok <==> manifest_ok(COMPONENTS_TOML@),
        r2 matches Ok(v) ==> v@.map_values(|c: Component| c@) == stable_sort(
            main_views(COMPONENTS_TOML@),
            |a: ComponentView, b: ComponentView| component_name_lt(a, b),
        ),
        r2 matches Err(e) ==> e is Parse,
    ensures
        r1 is Ok <==> r2 is Ok,
        r1 matches Ok(a) ==> (r2 matches Ok(b) && a@.map_values(|c: Component| c@)
            == b@.map_values(|c: Component| c@)),
        r1 matches Err(a) ==> (r2 matches Err(b) && a is Parse && b is Parse),
{
}

/// Two outcomes of `Components::collect_plugins` are the same outcome.
pub proof fn lemma_collect_plugins_idempotent(
    r1: Result<Vec<Plugin>, ComponentError>,
    r2: Result<Vec<Plugin>, ComponentError>,
)
    requires
        r1 is Ok <==> manifest_ok(COMPONENTS_TOML@),
        r1 matches Ok(v) ==> v@.map_values(|p: Plugin| p@) == stable_sort(
            plugin_views(COMPONENTS_TOML@),
            |a: PluginView, b: PluginView| plugin_name_lt(a, b),
        ),
        r1 matches Err(e) ==> e is Parse,
        r2 is Ok <==> manifest_ok(COMPONENTS_TOML@),
        r2 matches Ok(v) ==> v@.map_values(|p: Plugin| p@) == stable_sort(
            plugin_views(COMPONENTS_TOML@),
            |a: PluginView, b: PluginView| plugin_name_lt(a, b),
        ),
        r2 matches Err(e) ==> e is Parse,
    ensures
        r1 is Ok <==> r2 is Ok,
        r1 matches Ok(a) ==> (r2 matches Ok(b) && a@.map_values(|p: Plugin| p@) == b@.map_values(
            |p: Plugin| p@,
        )),
        r1 matches Err(a) ==> (r2 matches Err(b) && a is Parse && b is Parse),
{
}

/// Two outcomes of `Components::collect_plugin_executables` are the same
/// outcome.
pub proof fn lemma_collect_plugin_executables_idempotent(
    r1: Result<Vec<String>, ComponentError>,
    r2: Result<Vec<String>, ComponentError>,
)
    requires
        r1 is Ok <==> manifest_ok(COMPONENTS_TOML@),
        r1 matches Ok(v) ==> v@.map_values(|s: String| s@) == flat_execs(
            stable_sort(
                plugin_views(COMPONENTS_TOML@),
                |a: PluginView, b: PluginView| plugin_name_lt(a, b),
            ),
        ),
        r1 matches Err(e) ==> e is Parse,
        r2 is Ok <==> manifest_ok(COMPONENTS_TOML@),
        r2 matches Ok(v) ==> v@.map_values(|s: String| s@) == flat_execs(
            stable_sort(
                plugin_views(COMPONENTS_TOML@),
                |a: PluginView, b: PluginView| plugin_name_lt(a, b),
            ),
        ),
        r2 matches Err(e) ==> e is Parse,
    ensures
        r1 is Ok <==> r2 is Ok,
        r1 matches Ok(a) ==> (r2 matches Ok(b) && a@.map_values(|s: String| s@) == b@.map_values(
            |s: String| s@,
        )),
        r1 matches Err(a) ==> (r2 matches Err(b) && a is Parse && b is Parse),
{
}

/// Two outcomes of `Components::contains_published` on one name are equal.
pub proof fn lemma_contains_published_idempotent(name: Seq<char>, r1: bool, r2: bool)
    requires
        r1 == is_sub(
            names_bytes(
                stable_sort(
                    publishable_views(COMPONENTS_TOML@),
                    |a: ComponentView, b: ComponentView| component_name_lt(a, b),
                ),
            ),
            encode_utf8(name),
        ),
        r2 == is_sub(
            names_bytes(
                stable_sort(
                    publishable_views(COMPONENTS_TOML@),
                    |a: ComponentView, b: ComponentView| component_name_lt(a, b),
                ),
            ),
            encode_utf8(name),
        ),
    ensures
        r1 == r2,
{
}

/// Two outcomes of `Component::from_name` on one name are the same outcome:
/// both the synthesized record, both the same looked-up record, or both the
/// same failure (with the same offending name inside `NotFound`).
pub proof fn lemma_from_name_idempotent(
    name: Seq<char>,
    r1: Result<Component, ComponentError>,
    r2: Result<Component, ComponentError>,
)
    requires
        name == FUELUP@ ==> (r1 matches Ok(c) && c@ == fuelup_view()),
        name != FUELUP@ && !manifest_ok(COMPONENTS_TOML@) ==> (r1 matches Err(e) && e is Parse),
        name != FUELUP@ && manifest_ok(COMPONENTS_TOML@) ==> {
            &&& r1 is Ok <==> find_entry(manifest_view(COMPONENTS_TOML@), name) is Some
            &&& r1 matches Ok(c) ==> Some(c@) == find_entry(manifest_view(COMPONENTS_TOML@), name)
            &&& find_entry(manifest_view(COMPONENTS_TOML@), name) is None ==> (r1 matches Err(e)
                && e matches ComponentError::NotFound(n) && n@ == name)
        },
        name == FUELUP@ ==> (r2 matches Ok(c) && c@ == fuelup_view()),
        name != FUELUP@ && !manifest_ok(COMPONENTS_TOML@) ==> (r2 matches Err(e) && e is Parse),
        name != FUELUP@ && manifest_ok(COMPONENTS_TOML@) ==> {
            &&& r2 is Ok <==> find_entry(manifest_view(COMPONENTS_TOML@), name) is Some
            &&& r2 matches Ok(c) ==> Some(c@) == find_entry(manifest_view(COMPONENTS_TOML@), name)
            &&& find_entry(manifest_view(COMPONENTS_TOML@), name) is None ==> (r2 matches Err(e)
                && e matches ComponentError::NotFound(n) && n@ == name)
        },
    ensures
        r1 is Ok <==> r2 is Ok,
        r1 matches Ok(a) ==> (r2 matches Ok(b) && a@ == b@),
        r1 matches Err(a) && a is Parse ==> (r2 matches Err(b) && b is Parse),
        r1 matches Err(ComponentError::NotFound(n1)) ==> (r2 matches Err(
            ComponentError::NotFound(n2),
        ) && n1@ == n2@),
{
    if name == FUELUP@ {
    } else if !manifest_ok(COMPONENTS_TOML@) {
        assert(r1 matches Err(e) ==> e is Parse);
    } else {
        if find_entry(manifest_view(COMPONENTS_TOML@), name) is Some {
            assert(r1 is Ok && r2 is Ok);
        }
    }
}

} // verus!

