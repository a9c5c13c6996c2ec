use extension_pack_gen::ownership::OwnershipConflict;
use extension_pack_gen::pack_config::{Common, Module, PackConfig};
use extension_pack_gen::string_map::StringMap;

fn list(items: &[&str]) -> Vec<String> {
    items.iter().map(|s| s.to_string()).collect()
}

fn common() -> Common {
    Common {
        version: "1.0.0".to_string(),
        overwrite: false,
        author: String::new(),
        publisher: String::new(),
        license: String::new(),
        engines: StringMap::new(),
        categories: Vec::new(),
        name_prefix: String::new(),
        display_name_prefix: String::new(),
        icon_dir: String::new(),
        icon: String::new(),
        repository: String::new(),
    }
}

fn module(name: &str, packages: &[&str]) -> Module {
    Module {
        name: name.to_string(),
        display_name: name.to_uppercase(),
        description: String::new(),
        categories: Vec::new(),
        activation_events: Vec::new(),
        packages: list(packages),
    }
}

fn pack(modules: Vec<Module>) -> PackConfig {
    PackConfig { common: common(), modules }
}

#[test]
fn one_shared_package_gives_one_conflict_naming_both_modules() {
    let pack = pack(vec![module("m1", &["p"]), module("m2", &["p"])]);
    let errors = pack.find_multiple_inheritance().unwrap_err();
    assert_eq!(errors.len(), 1);
    assert!(errors[0].contains("`p`"));
    assert!(errors[0].contains("`m1`"));
    assert!(errors[0].contains("`m2`"));
    assert!(!errors[0].contains("`q`"));
    assert_eq!(errors, vec!["Package `p` is used by multiple modules: `m1`, `m2`".to_string()]);
}

#[test]
fn no_shared_packages_gives_no_conflict() {
    let pack = pack(vec![module("m1", &["p"]), module("m2", &["q", "r"]), module("m3", &[])]);
    assert_eq!(pack.find_multiple_inheritance(), Ok(()));
    assert!(pack.ownership_conflicts().is_empty());
}

#[test]
fn two_independent_conflicts_give_two_entries() {
    let pack = pack(vec![
        module("m1", &["p", "r"]),
        module("m2", &["p"]),
        module("m3", &["r", "s"]),
    ]);
    let errors = pack.find_multiple_inheritance().unwrap_err();
    assert_eq!(
        errors,
        vec![
            "Package `p` is used by multiple modules: `m1`, `m2`".to_string(),
            "Package `r` is used by multiple modules: `m1`, `m3`".to_string(),
        ]
    );
}

#[test]
fn empty_pack_is_valid() {
    assert_eq!(pack(vec![]).find_multiple_inheritance(), Ok(()));
}

#[test]
fn package_listed_twice_by_one_module_is_no_conflict() {
    let pack = pack(vec![module("m1", &["p", "p"]), module("m2", &["q"])]);
    assert_eq!(pack.find_multiple_inheritance(), Ok(()));
}

#[test]
fn modules_of_one_name_count_as_one_owner() {
    let pack = pack(vec![module("same", &["p"]), module("same", &["p"])]);
    assert_eq!(pack.find_multiple_inheritance(), Ok(()));
}

#[test]
fn three_owners_are_all_named_in_module_order() {
    let pack = pack(vec![
        module("c", &["shared"]),
        module("a", &["other", "shared"]),
        module("b", &["shared"]),
    ]);
    let errors = pack.find_multiple_inheritance().unwrap_err();
    assert_eq!(
        errors,
        vec!["Package `shared` is used by multiple modules: `c`, `a`, `b`".to_string()]
    );
}

#[test]
fn a_conflict_is_reported_once_however_often_it_is_listed() {
    let pack = pack(vec![
        module("m1", &["p", "p"]),
        module("m2", &["p"]),
        module("m1", &["p"]),
    ]);
    let found = pack.ownership_conflicts();
    assert_eq!(found.len(), 1);
    assert_eq!(found[0].package, "p");
    assert_eq!(found[0].modules, list(&["m1", "m2"]));
}

#[test]
fn conflicts_come_in_the_order_in_which_packages_are_first_listed() {
    let pack = pack(vec![
        module("m1", &["z", "a"]),
        module("m2", &["a", "z"]),
    ]);
    let found = pack.ownership_conflicts();
    assert_eq!(found.len(), 2);
    assert_eq!(found[0].package, "z");
    assert_eq!(found[1].package, "a");
}

#[test]
fn a_conflict_late_in_the_pack_is_still_found() {
    let pack = pack(vec![
        module("m1", &["a"]),
        module("m2", &["b"]),
        module("m3", &["c"]),
        module("m4", &["d", "a"]),
    ]);
    let errors = pack.find_multiple_inheritance().unwrap_err();
    assert_eq!(
        errors,
        vec!["Package `a` is used by multiple modules: `m1`, `m4`".to_string()]
    );
}

#[test]
fn describe_writes_the_sentence() {
    let conflict = OwnershipConflict { package: "pkg".to_string(), modules: list(&["x", "y", "z"]) };
    assert_eq!(conflict.describe(), "Package `pkg` is used by multiple modules: `x`, `y`, `z`");
    let lonely = OwnershipConflict { package: "pkg".to_string(), modules: list(&["x"]) };
    assert_eq!(lonely.describe(), "Package `pkg` is used by multiple modules: `x`");
    let nobody = OwnershipConflict { package: String::new(), modules: Vec::new() };
    assert_eq!(nobody.describe(), "Package `` is used by multiple modules: ");
}

#[test]
fn validation_does_not_change_the_pack() {
    let pack = pack(vec![module("m1", &["p"]), module("m2", &["p"])]);
    let first = pack.find_multiple_inheritance();
    let second = pack.find_multiple_inheritance();
    assert_eq!(first, second);
    assert_eq!(pack.modules.len(), 2);
    assert_eq!(pack.modules[0].packages, list(&["p"]));
}
