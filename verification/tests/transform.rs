use extension_pack_gen::pack_config::{default_bool_false, default_engine, Common, Module, PackConfig};
use extension_pack_gen::package_json::{
    default_build_script, icon_file_name, manifest_for, transform, PackageJson,
};
use extension_pack_gen::string_map::StringMap;

fn list(items: &[&str]) -> Vec<String> {
    items.iter().map(|s| s.to_string()).collect()
}

fn common(name_prefix: &str, version: &str) -> Common {
    Common {
        version: version.to_string(),
        overwrite: default_bool_false(),
        author: String::new(),
        publisher: String::new(),
        license: String::new(),
        engines: default_engine(),
        categories: Vec::new(),
        name_prefix: name_prefix.to_string(),
        display_name_prefix: String::new(),
        icon_dir: String::new(),
        icon: String::new(),
        repository: String::new(),
    }
}

fn module(name: &str, display_name: &str) -> Module {
    Module {
        name: name.to_string(),
        display_name: display_name.to_string(),
        description: String::new(),
        categories: Vec::new(),
        activation_events: Vec::new(),
        packages: Vec::new(),
    }
}

fn rich_pack() -> PackConfig {
    let mut engines = StringMap::new();
    engines.insert("vscode".to_string(), "^1.80.0".to_string());
    engines.insert("node".to_string(), ">=18".to_string());
    let common = Common {
        version: "2.3.4".to_string(),
        overwrite: true,
        author: "Ann".to_string(),
        publisher: "acme".to_string(),
        license: "MIT".to_string(),
        engines,
        categories: list(&["lang", "tools"]),
        name_prefix: "acme-".to_string(),
        display_name_prefix: "Acme ".to_string(),
        icon_dir: "icons".to_string(),
        icon: "icons/base.png".to_string(),
        repository: "https://example.org/acme".to_string(),
    };
    let first = Module {
        name: "linter".to_string(),
        display_name: "Linter".to_string(),
        description: "Lints".to_string(),
        categories: list(&["tools", "theme"]),
        activation_events: list(&["onStartup"]),
        packages: list(&["a.b", "c.d"]),
    };
    let second = Module {
        name: "themes".to_string(),
        display_name: "Themes".to_string(),
        description: String::new(),
        categories: Vec::new(),
        activation_events: Vec::new(),
        packages: Vec::new(),
    };
    PackConfig { common, modules: vec![first, second] }
}

fn same(a: &PackageJson, b: &PackageJson) -> bool {
    a.name == b.name
        && a.display_name == b.display_name
        && a.version == b.version
        && a.description == b.description
        && a.author == b.author
        && a.publisher == b.publisher
        && a.license == b.license
        && a.repository == b.repository
        && a.icon == b.icon
        && a.engines.keys() == b.engines.keys()
        && a.engines.keys().iter().all(|k| a.engines.get(k) == b.engines.get(k))
        && a.categories == b.categories
        && a.extension_pack == b.extension_pack
        && a.scripts.keys() == b.scripts.keys()
        && a.scripts.keys().iter().all(|k| a.scripts.get(k) == b.scripts.get(k))
        && a.overwrite == b.overwrite
}

#[test]
fn name_and_version_are_derived_from_the_shared_part() {
    let pack = PackConfig {
        common: common("acme-", "1.2.0"),
        modules: vec![module("linter", "Linter")],
    };
    let manifests = transform(&pack);
    assert_eq!(manifests.len(), 1);
    assert_eq!(manifests[0].name, "acme-linter");
    assert_eq!(manifests[0].version, "1.2.0");
    assert_eq!(manifests[0].display_name, "Linter");
}

#[test]
fn every_field_of_a_manifest_is_derived_as_stated() {
    let manifests = transform(&rich_pack());
    assert_eq!(manifests.len(), 2);
    let m = &manifests[0];
    assert_eq!(m.name, "acme-linter");
    assert_eq!(m.display_name, "Acme Linter");
    assert_eq!(m.version, "2.3.4");
    assert_eq!(m.description, "Lints");
    assert_eq!(m.author, "Ann");
    assert_eq!(m.publisher, "acme");
    assert_eq!(m.license, "MIT");
    assert_eq!(m.repository, "https://example.org/acme");
    assert_eq!(m.icon, "");
    assert_eq!(m.engines.keys(), list(&["vscode", "node"]));
    assert_eq!(m.engines.get("vscode"), Some(&"^1.80.0".to_string()));
    assert_eq!(m.engines.get("node"), Some(&">=18".to_string()));
    assert_eq!(m.categories, list(&["lang", "tools", "theme"]));
    assert_eq!(m.extension_pack, list(&["a.b", "c.d"]));
    assert_eq!(m.scripts.keys(), list(&["build-extension"]));
    assert_eq!(m.scripts.get("build-extension"), Some(&"vsce package".to_string()));
    assert!(m.overwrite);
    let n = &manifests[1];
    assert_eq!(n.name, "acme-themes");
    assert_eq!(n.display_name, "Acme Themes");
    assert_eq!(n.description, "");
    assert_eq!(n.categories, list(&["lang", "tools"]));
    assert!(n.extension_pack.is_empty());
    assert!(n.overwrite);
}

#[test]
fn manifests_come_in_the_order_of_the_modules() {
    let pack = PackConfig {
        common: common("p-", "0.1.0"),
        modules: vec![module("c", "C"), module("a", "A"), module("b", "B")],
    };
    let names: Vec<String> = transform(&pack).into_iter().map(|m| m.name).collect();
    assert_eq!(names, list(&["p-c", "p-a", "p-b"]));
}

#[test]
fn pack_without_modules_has_no_manifests() {
    let pack = PackConfig { common: common("p-", "0.1.0"), modules: Vec::new() };
    assert!(transform(&pack).is_empty());
}

#[test]
fn transforming_twice_gives_the_same_manifests() {
    let pack = rich_pack();
    let first = transform(&pack);
    let second = transform(&pack);
    assert_eq!(first.len(), second.len());
    for (a, b) in first.iter().zip(second.iter()) {
        assert!(same(a, b));
    }
}

#[test]
fn transform_leaves_the_pack_as_it_was() {
    let pack = rich_pack();
    let _ = transform(&pack);
    assert_eq!(pack.common.categories, list(&["lang", "tools"]));
    assert_eq!(pack.modules[0].categories, list(&["tools", "theme"]));
    assert_eq!(pack.modules[0].packages, list(&["a.b", "c.d"]));
    assert_eq!(pack.common.name_prefix, "acme-");
}

#[test]
fn conversion_from_a_pack_gives_what_transform_gives() {
    let by_transform = transform(&rich_pack());
    let by_from: Vec<PackageJson> = Vec::from(rich_pack());
    let by_into: Vec<PackageJson> = rich_pack().into();
    assert_eq!(by_from.len(), by_transform.len());
    assert_eq!(by_into.len(), by_transform.len());
    for i in 0..by_transform.len() {
        assert!(same(&by_from[i], &by_transform[i]));
        assert!(same(&by_into[i], &by_transform[i]));
    }
}

#[test]
fn manifest_for_one_module_is_what_transform_gives_for_it() {
    let pack = rich_pack();
    let all = transform(&pack);
    for i in 0..pack.modules.len() {
        assert!(same(&manifest_for(&pack.common, &pack.modules[i]), &all[i]));
    }
}

#[test]
fn transform_does_not_validate() {
    let mut first = module("m1", "M1");
    first.packages = list(&["p"]);
    let mut second = module("m2", "M2");
    second.packages = list(&["p"]);
    let pack = PackConfig { common: common("", "1.0.0"), modules: vec![first, second] };
    assert!(pack.find_multiple_inheritance().is_err());
    let manifests = transform(&pack);
    assert_eq!(manifests.len(), 2);
    assert_eq!(manifests[0].extension_pack, list(&["p"]));
    assert_eq!(manifests[1].extension_pack, list(&["p"]));
}

#[test]
fn empty_prefixes_leave_the_names_alone() {
    let pack = PackConfig { common: common("", "1.0.0"), modules: vec![module("solo", "Solo")] };
    let manifests = transform(&pack);
    assert_eq!(manifests[0].name, "solo");
    assert_eq!(manifests[0].display_name, "Solo");
}

#[test]
fn default_engine_names_the_editor() {
    let engines = default_engine();
    assert_eq!(engines.keys(), list(&["vscode"]));
    assert_eq!(engines.get("vscode"), Some(&"^1.78.0".to_string()));
}

#[test]
fn default_build_script_is_the_one_build_command() {
    let scripts = default_build_script();
    assert_eq!(scripts.keys(), list(&["build-extension"]));
    assert_eq!(scripts.get("build-extension"), Some(&"vsce package".to_string()));
}

#[test]
fn default_flag_is_false() {
    assert!(!default_bool_false());
}

#[test]
fn defaults_are_fresh_values_each_time() {
    let mut one = default_engine();
    one.insert("vscode".to_string(), "changed".to_string());
    assert_eq!(default_engine().get("vscode"), Some(&"^1.78.0".to_string()));
    let mut two = default_build_script();
    two.insert("other".to_string(), "x".to_string());
    assert_eq!(default_build_script().keys(), list(&["build-extension"]));
}

#[test]
fn common_of_a_version_alone_takes_the_defaults() {
    let c = Common::new("3.0.0".to_string());
    assert_eq!(c.version, "3.0.0");
    assert!(!c.overwrite);
    assert_eq!(c.author, "");
    assert_eq!(c.publisher, "");
    assert_eq!(c.license, "");
    assert_eq!(c.engines.keys(), list(&["vscode"]));
    assert_eq!(c.engines.get("vscode"), Some(&"^1.78.0".to_string()));
    assert!(c.categories.is_empty());
    assert_eq!(c.name_prefix, "");
    assert_eq!(c.display_name_prefix, "");
    assert_eq!(c.icon_dir, "");
    assert_eq!(c.icon, "");
    assert_eq!(c.repository, "");
}

#[test]
fn module_of_two_names_alone_takes_the_defaults() {
    let m = Module::new("linter".to_string(), "Linter".to_string());
    assert_eq!(m.name, "linter");
    assert_eq!(m.display_name, "Linter");
    assert_eq!(m.description, "");
    assert!(m.categories.is_empty());
    assert!(m.activation_events.is_empty());
    assert!(m.packages.is_empty());
}

#[test]
fn constructed_pack_transforms_as_stated() {
    let mut c = Common::new("1.2.0".to_string());
    c.name_prefix = "acme-".to_string();
    let pack = PackConfig {
        common: c,
        modules: vec![Module::new("linter".to_string(), "Linter".to_string())],
    };
    let manifests = transform(&pack);
    assert_eq!(manifests[0].name, "acme-linter");
    assert_eq!(manifests[0].version, "1.2.0");
    assert_eq!(manifests[0].engines.get("vscode"), Some(&"^1.78.0".to_string()));
    assert!(!manifests[0].overwrite);
}

#[test]
fn assigning_the_icon_changes_the_icon_only() {
    let mut manifests = transform(&rich_pack());
    let before = transform(&rich_pack());
    assert_eq!(manifests[0].icon, "");
    manifests[0].assign_icon();
    assert_eq!(manifests[0].icon, "icon.png");
    assert_eq!(icon_file_name(), "icon.png");
    manifests[0].icon = String::new();
    assert!(same(&manifests[0], &before[0]));
}

#[test]
fn existing_file_is_kept_unless_the_pack_overwrites() {
    let mut manifests = transform(&rich_pack());
    assert!(manifests[0].should_write(true));
    assert!(manifests[0].should_write(false));
    manifests[0].overwrite = false;
    assert!(!manifests[0].should_write(true));
    assert!(manifests[0].should_write(false));
}

#[test]
fn manifests_are_made_of_a_valid_pack_only() {
    let valid = rich_pack();
    let made = valid.manifests().unwrap();
    let direct = transform(&valid);
    assert_eq!(made.len(), direct.len());
    for (a, b) in made.iter().zip(direct.iter()) {
        assert!(same(a, b));
    }
    let mut first = module("m1", "M1");
    first.packages = list(&["p"]);
    let mut second = module("m2", "M2");
    second.packages = list(&["p"]);
    let broken = PackConfig { common: common("", "1.0.0"), modules: vec![first, second] };
    assert_eq!(
        broken.manifests().err(),
        Some(vec!["Package `p` is used by multiple modules: `m1`, `m2`".to_string()])
    );
}
