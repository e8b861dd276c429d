use component::{Component, ComponentError, Components, Plugin, FORC, FUELUP};

fn find<'a>(cs: &'a Components, key: &str) -> &'a Component {
    for (k, c) in cs.component.iter() {
        if k == key {
            return c;
        }
    }
    panic!("no entry named {}", key);
}

#[test]
fn test_toml() {
    const TOML: &str = r#"
[component.forc-fmt]
name = "forc-fmt"
is_plugin = true
tarball_prefix = "forc-binaries"
executables = ["forc-fmt"]
repository_name = "https://github.com/FuelLabs/sway"
targets = ["linux_amd64", "linux_arm64", "darwin_amd64", "darwin_arm64"]
"#;

    let components = Components::from_toml(TOML).unwrap();
    let c = find(&components, "forc-fmt");

    assert_eq!(c.name, "forc-fmt");
    assert_eq!(c.is_plugin, Some(true));
    assert_eq!(c.tarball_prefix, "forc-binaries");
    assert_eq!(c.executables, ["forc-fmt"]);
    assert_eq!(c.repository_name, "https://github.com/FuelLabs/sway");
    assert_eq!(
        c.targets,
        ["linux_amd64", "linux_arm64", "darwin_amd64", "darwin_arm64"]
    );
}

#[test]
fn test_collect_exclude_plugins() {
    let components = Components::collect_exclude_plugins().unwrap();
    let actual = components
        .iter()
        .map(|c| c.name.clone())
        .collect::<Vec<String>>();
    let mut expected = ["forc", "fuel-core"];
    expected.sort();
    assert_eq!(components.len(), 2);
    assert_eq!(actual, expected);
}

#[test]
fn test_collect_plugins() {
    assert!(Components::collect_plugins().is_ok());
}

#[test]
fn test_collect_plugin_executables() {
    assert!(Components::collect_plugin_executables().is_ok());
}

#[test]
fn test_single_section_reads_back_exactly() {
    const TOML: &str = r#"
[component.alpha]
name = "alpha"
tarball_prefix = "alpha-pack"
executables = ["alpha", "alpha-helper"]
repository_name = "alpha-repo"
targets = ["linux_amd64"]
"#;
    let components = Components::from_toml(TOML).unwrap();
    assert_eq!(components.component.len(), 1);
    let c = find(&components, "alpha");
    assert_eq!(c.name, "alpha");
    assert_eq!(c.tarball_prefix, "alpha-pack");
    assert_eq!(c.executables, ["alpha", "alpha-helper"]);
    assert_eq!(c.repository_name, "alpha-repo");
    assert_eq!(c.targets, ["linux_amd64"]);
    assert_eq!(c.is_plugin, None);
    assert_eq!(c.publish, None);
}

fn one_section(optional_lines: &str) -> String {
    let mut text = String::new();
    text.push_str("[component.alpha]\n");
    text.push_str("name = \"alpha\"\n");
    text.push_str("tarball_prefix = \"alpha\"\n");
    text.push_str("executables = [\"alpha\"]\n");
    text.push_str("repository_name = \"alpha\"\n");
    text.push_str("targets = [\"linux_amd64\"]\n");
    text.push_str(optional_lines);
    text
}

#[test]
fn test_optional_fields_roundtrip_all_combinations() {
    let cases: [(&str, Option<bool>, Option<bool>); 6] = [
        ("", None, None),
        ("is_plugin = true\n", Some(true), None),
        ("is_plugin = false\n", Some(false), None),
        ("publish = true\n", None, Some(true)),
        ("publish = false\n", None, Some(false)),
        ("is_plugin = false\npublish = true\n", Some(false), Some(true)),
    ];
    for (lines, is_plugin, publish) in cases.iter() {
        let text = one_section(lines);
        let components = Components::from_toml(&text).unwrap();
        let c = find(&components, "alpha");
        assert_eq!(c.is_plugin, *is_plugin);
        assert_eq!(c.publish, *publish);
    }
}

#[test]
fn test_missing_required_field_fails() {
    let text = "[component.alpha]\nname = \"alpha\"\ntarball_prefix = \"alpha\"\nrepository_name = \"alpha\"\ntargets = [\"linux_amd64\"]\n";
    let r = Components::from_toml(text);
    assert!(matches!(r, Err(ComponentError::Parse)));
}

#[test]
fn test_wrong_field_type_fails() {
    let text = one_section("").replace("executables = [\"alpha\"]", "executables = \"alpha\"");
    let r = Components::from_toml(&text);
    assert!(matches!(r, Err(ComponentError::Parse)));
}

#[test]
fn test_optional_field_wrong_type_fails() {
    let text = one_section("is_plugin = \"yes\"\n");
    let r = Components::from_toml(&text);
    assert!(matches!(r, Err(ComponentError::Parse)));
}

#[test]
fn test_unknown_extra_field_is_tolerated() {
    let text = one_section("extra_field = \"ignored\"\n");
    let components = Components::from_toml(&text).unwrap();
    let c = find(&components, "alpha");
    assert_eq!(c.name, "alpha");
}

#[test]
fn test_malformed_syntax_fails() {
    let r = Components::from_toml("[component.alpha\nname = ");
    assert!(matches!(r, Err(ComponentError::Parse)));
}

#[test]
fn test_duplicate_section_fails() {
    let mut text = one_section("");
    let again = one_section("");
    text.push_str("\n");
    text.push_str(&again);
    let r = Components::from_toml(&text);
    assert!(matches!(r, Err(ComponentError::Parse)));
}

#[test]
fn test_fuelup_record_is_synthesized() {
    let c = Component::from_name(FUELUP).unwrap();
    assert_eq!(c.name, "fuelup");
    assert_eq!(c.is_plugin, Some(false));
    assert_eq!(c.publish, Some(true));
    assert_eq!(c.tarball_prefix, "fuelup");
    assert_eq!(c.repository_name, "fuelup");
    assert_eq!(c.executables, ["fuelup"]);
    assert_eq!(c.targets, ["fuelup"]);
}

#[test]
fn test_from_name_finds_manifest_entry() {
    let c = Component::from_name(FORC).unwrap();
    assert_eq!(c.name, "forc");
    assert_eq!(c.is_plugin, None);
    assert_eq!(c.executables, ["forc"]);
}

#[test]
fn test_from_name_unknown_fails_not_found() {
    let r = Component::from_name("no-such-component");
    match r {
        Err(ComponentError::NotFound(name)) => assert_eq!(name, "no-such-component"),
        _ => panic!("expected NotFound"),
    }
}

#[test]
fn test_exclude_plugins_has_no_plugin_flag() {
    let components = Components::collect_exclude_plugins().unwrap();
    for c in components.iter() {
        assert_eq!(c.is_plugin, None);
    }
    for w in components.windows(2) {
        assert!(w[0].name <= w[1].name);
    }
}

#[test]
fn test_plugins_sorted_and_flagged() {
    let plugins = Components::collect_plugins().unwrap();
    assert!(!plugins.is_empty());
    for w in plugins.windows(2) {
        assert!(w[0].name <= w[1].name);
    }
    let all = Components::collect().unwrap();
    for p in plugins.iter() {
        let c = find(&all, &p.name);
        assert_eq!(c.is_plugin, Some(true));
        assert_eq!(c.executables, p.executables);
    }
}

#[test]
fn test_plugin_executables_preserve_plugin_order() {
    let plugins = Components::collect_plugins().unwrap();
    let mut expected: Vec<String> = Vec::new();
    for p in plugins.iter() {
        expected.extend(p.executables.clone());
    }
    let actual = Components::collect_plugin_executables().unwrap();
    assert_eq!(actual, expected);
}

#[test]
fn test_publishables_sorted_and_marked() {
    let list = Components::collect_publishables().unwrap();
    for c in list.iter() {
        assert!(c.publish.is_some());
    }
    for w in list.windows(2) {
        assert!(w[0].name <= w[1].name);
    }
}

#[test]
fn test_queries_are_idempotent() {
    let a = Components::collect_exclude_plugins().unwrap();
    let b = Components::collect_exclude_plugins().unwrap();
    assert_eq!(a.len(), b.len());
    for (x, y) in a.iter().zip(b.iter()) {
        assert_eq!(x.name, y.name);
        assert_eq!(x.is_plugin, y.is_plugin);
        assert_eq!(x.tarball_prefix, y.tarball_prefix);
        assert_eq!(x.executables, y.executables);
        assert_eq!(x.repository_name, y.repository_name);
        assert_eq!(x.targets, y.targets);
        assert_eq!(x.publish, y.publish);
    }
    let e1 = Components::collect_plugin_executables().unwrap();
    let e2 = Components::collect_plugin_executables().unwrap();
    assert_eq!(e1, e2);
}

#[test]
fn test_is_main_executable() {
    let main = Plugin {
        name: "forc-fmt".to_string(),
        executables: vec!["forc-fmt".to_string()],
    };
    assert!(main.is_main_executable());
    let renamed = Plugin {
        name: "forc-fmt".to_string(),
        executables: vec!["fmt".to_string()],
    };
    assert!(!renamed.is_main_executable());
    let several = Plugin {
        name: "forc-client".to_string(),
        executables: vec!["forc-deploy".to_string(), "forc-run".to_string()],
    };
    assert!(!several.is_main_executable());
}

#[test]
fn test_contains_published() {
    assert!(Components::contains_published("forc"));
    assert!(Components::contains_published("fuel-core"));
    assert!(!Components::contains_published("no-such-name"));
    assert_eq!(Components::checked_contains_published("forc"), Some(true));
    assert_eq!(
        Components::checked_contains_published("no-such-name"),
        Some(false)
    );
}

#[test]
fn test_contains_published_straddles_boundaries() {
    // The check is a substring search over the concatenation of the sorted
    // publishable names, so a string that spans two adjacent names passes
    // although it names no component.
    assert!(Components::contains_published("clientforc"));
}
