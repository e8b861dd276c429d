//! The record types of the registry: `Component`, the reduced `Plugin` view,
//! the `Components` mapping, and the error type of the query surface.

use vstd::prelude::*;
use vstd::utf8::encode_utf8;
use crate::order::bytes_lt;

verus! {

/// Reserved name of a component that call sites treat specially although it
/// is an ordinary manifest entry.
pub const FORC: &'static str = "forc";

/// Reserved name of the one component that is never in the manifest: the
/// tool that distributes the others, synthesized with fixed field values.
pub const FUELUP: &'static str = "fuelup";

/// One named software artifact.
///
/// `is_plugin` and `publish` are tri-state: absent in the manifest is kept
/// distinct from an explicit `false`.
#[derive(Debug, Clone)]
pub struct Component {
    pub name: String,
    pub is_plugin: Option<bool>,
    pub tarball_prefix: String,
    pub executables: Vec<String>,
    pub repository_name: String,
    pub targets: Vec<String>,
    pub publish: Option<bool>,
}

/// The mathematical value of a `Component`.
pub struct ComponentView {
    pub name: Seq<char>,
    pub is_plugin: Option<bool>,
    pub tarball_prefix: Seq<char>,
    pub executables: Seq<Seq<char>>,
    pub repository_name: Seq<char>,
    pub targets: Seq<Seq<char>>,
    pub publish: Option<bool>,
}

impl View for Component {
    type V = ComponentView;

    open spec fn view(&self) -> ComponentView {
        ComponentView {
            name: self.name@,
            is_plugin: self.is_plugin,
            tarball_prefix: self.tarball_prefix@,
            executables: self.executables@.map_values(|s: String| s@),
            repository_name: self.repository_name@,
            targets: self.targets@.map_values(|s: String| s@),
            publish: self.publish,
        }
    }
}

/// The full registry: component name to record, in manifest order.
/// The name under which a record is filed is kept apart from the record's
/// own `name` field; the format does not promise that the two agree.
#[derive(Debug)]
pub struct Components {
    pub component: Vec<(String, Component)>,
}

impl View for Components {
    type V = Seq<(Seq<char>, ComponentView)>;

    open spec fn view(&self) -> Seq<(Seq<char>, ComponentView)> {
        self.component@.map_values(|p: (String, Component)| (p.0@, p.1@))
    }
}

/// A component reduced to what plugin listings report.
#[derive(Debug)]
pub struct Plugin {
    pub name: String,
    pub executables: Vec<String>,
}

/// The mathematical value of a `Plugin`.
pub struct PluginView {
    pub name: Seq<char>,
    pub executables: Seq<Seq<char>>,
}

impl View for Plugin {
    type V = PluginView;

    open spec fn view(&self) -> PluginView {
        PluginView {
            name: self.name@,
            executables: self.executables@.map_values(|s: String| s@),
        }
    }
}

/// How a registry operation fails: the text does not deserialize into the
/// record shape, or a requested name is nowhere to be found (the offending
/// name is carried along).
#[derive(Debug)]
pub enum ComponentError {
    Parse,
    NotFound(String),
}

/// Strict name order on component records: byte-wise on the UTF-8 of `name`.
pub open spec fn component_name_lt(a: ComponentView, b: ComponentView) -> bool {
    bytes_lt(encode_utf8(a.name), encode_utf8(b.name))
}

/// Strict name order on plugin records.
pub open spec fn plugin_name_lt(a: PluginView, b: PluginView) -> bool {
    bytes_lt(encode_utf8(a.name), encode_utf8(b.name))
}

/// An exact copy, one verified field at a time.
pub(crate) fn clone_strings(v: &Vec<String>) -> (r: Vec<String>)
    ensures
        r@ == v@,
{
    let mut out: Vec<String> = Vec::new();
    let mut i: usize = 0;
    while i < v.len()
        invariant
            0 <= i <= v@.len(),
            out@ == v@.take(i as int),
        decreases v@.len() - i,
    {
        out.push(v[i].clone());
        proof {
            assert(out@ =~= v@.take(i + 1));
        }
        i = i + 1;
    }
    proof {
        assert(v@.take(v@.len() as int) =~= v@);
    }
    out
}

impl Component {
    /// An exact copy of the record.
    pub fn duplicate(&self) -> (r: Component)
        ensures
            r@ == self@,
            r.name == self.name,
    {
        Component {
            name: self.name.clone(),
            is_plugin: self.is_plugin,
            tarball_prefix: self.tarball_prefix.clone(),
            executables: clone_strings(&self.executables),
            repository_name: self.repository_name.clone(),
            targets: clone_strings(&self.targets),
            publish: self.publish,
        }
    }
}

impl Plugin {
    /// Whether this plugin is the main executable of itself: it provides
    /// exactly one executable, named like the plugin.
    pub fn is_main_executable(&self) -> (r: bool)
        ensures
            r == (self@.executables.len() == 1 && self@.name == self@.executables[0]),
    {
        self.executables.len() == 1 && self.name == self.executables[0]
    }
}

} // verus!
