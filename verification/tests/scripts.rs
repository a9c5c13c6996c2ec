use extension_pack_gen::badge_files::{badge_file_name, badge_name};
use extension_pack_gen::clone_with::clone_with_method_name;
use extension_pack_gen::scripts::{
    archive_name, build_script, conflict_report, install_script, BuildStep,
};

fn step(name: &str, directory: &str, archive: &str) -> BuildStep {
    BuildStep {
        name: name.to_string(),
        directory: directory.to_string(),
        archive: archive.to_string(),
    }
}

#[test]
fn archive_name_joins_name_and_version() {
    assert_eq!(archive_name("acme-linter", "1.2.0"), "acme-linter-1.2.0.vsix");
    assert_eq!(archive_name("", ""), "-.vsix");
}

#[test]
fn build_script_of_no_steps_is_empty() {
    assert_eq!(build_script(&Vec::new()), "");
}

#[test]
fn build_script_has_one_section_for_each_step() {
    let script = build_script(&vec![
        step("a", "/out/package-json/a", "/out/extension-pack/a-1.0.0.vsix"),
        step("b", "/out/package-json/b", "/out/extension-pack/b-1.0.0.vsix"),
    ]);
    let expected = "#========================================\n\
# a\n\
#========================================\n\
echo \"Building a\"\n\
cd /out/package-json/a || exit\n\
vsce package -o /out/extension-pack/a-1.0.0.vsix\n\
\n\
#========================================\n\
# b\n\
#========================================\n\
echo \"Building b\"\n\
cd /out/package-json/b || exit\n\
vsce package -o /out/extension-pack/b-1.0.0.vsix\n\
\n";
    assert_eq!(script, expected);
}

#[test]
fn build_script_rule_is_forty_signs_long() {
    let script = build_script(&vec![step("n", "d", "v")]);
    let first = script.lines().next().unwrap();
    assert_eq!(first.len(), 41);
    assert!(first.starts_with('#'));
    assert!(first[1..].chars().all(|c| c == '='));
}

#[test]
fn install_script_has_one_line_for_each_archive() {
    let script = install_script(
        "code-insiders",
        &vec!["/out/a-1.0.0.vsix".to_string(), "/out/b-2.0.0.vsix".to_string()],
    );
    assert_eq!(
        script,
        "code-insiders --install-extension /out/a-1.0.0.vsix\n\
code-insiders --install-extension /out/b-2.0.0.vsix\n"
    );
    assert_eq!(install_script("code", &Vec::new()), "");
}

#[test]
fn conflict_report_lists_each_sentence_on_a_line() {
    let report = conflict_report(&vec!["first".to_string(), "second".to_string()]);
    assert_eq!(report, ":\n> Multiple inheritance found:\n\t> first\n\t> second");
    assert_eq!(conflict_report(&Vec::new()), ":\n> Multiple inheritance found:");
}

#[test]
fn badge_name_reads_the_part_between_prefix_and_ending() {
    assert_eq!(badge_name("icon_linter.png"), Some("linter".to_string()));
    assert_eq!(badge_name("icon_.png"), Some(String::new()));
    assert_eq!(badge_name("icon_a.b.png"), Some("a.b".to_string()));
    assert_eq!(badge_name("icon_icon_.png.png"), Some("icon_.png".to_string()));
    assert_eq!(badge_name("icon_gr\u{fc}n.png"), Some("gr\u{fc}n".to_string()));
}

#[test]
fn badge_name_of_another_file_is_none() {
    assert_eq!(badge_name(""), None);
    assert_eq!(badge_name("icon.png"), None);
    assert_eq!(badge_name("icon_png"), None);
    assert_eq!(badge_name("icon_.pn"), None);
    assert_eq!(badge_name("Icon_a.png"), None);
    assert_eq!(badge_name("icon_a.PNG"), None);
    assert_eq!(badge_name("icon-a.png"), None);
    assert_eq!(badge_name("xicon_a.png"), None);
    assert_eq!(badge_name("icon_a.png "), None);
    assert_eq!(badge_name("icon_a.jpg"), None);
}

#[test]
fn badge_file_name_and_badge_name_undo_each_other() {
    for name in ["linter", "", "a b", "x.png", "icon_"] {
        let file = badge_file_name(name);
        assert_eq!(file, format!("icon_{}.png", name));
        assert_eq!(badge_name(&file), Some(name.to_string()));
    }
}

#[test]
fn method_name_puts_the_prefix_before_the_field() {
    assert_eq!(clone_with_method_name("padding_percent"), "clone_with_padding_percent");
    assert_eq!(clone_with_method_name("overlay_position"), "clone_with_overlay_position");
    assert_eq!(clone_with_method_name(""), "clone_with_");
}
