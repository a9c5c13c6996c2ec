//! The manifest of one module, and how a pack becomes its manifests.

use crate::dedup::{lemma_merge_of_two, merge_and_deduplicate, stable_dedup};
use crate::ownership::{conflict_messages, exclusive_ownership};
use crate::pack_config::{Common, CommonView, Module, ModuleView, PackConfig, PackConfigView};
use crate::string_map::StringMap;
use crate::text::strings;
use vstd::prelude::*;
use vstd::std_specs::convert::FromSpecImpl;
use vstd::string::*;

verus! {

/// The manifest of one module.
#[derive(Debug)]
pub struct PackageJson {
    pub name: String,
    pub display_name: String,
    pub version: String,
    pub description: String,
    pub author: String,
    pub publisher: String,
    pub license: String,
    pub repository: String,
    pub icon: String,
    pub engines: StringMap,
    pub categories: Vec<String>,
    pub extension_pack: Vec<String>,
    pub scripts: StringMap,
    pub overwrite: bool,
}

/// What a `PackageJson` holds, as mathematical values.
pub struct PackageJsonView {
    pub name: Seq<char>,
    pub display_name: Seq<char>,
    pub version: Seq<char>,
    pub description: Seq<char>,
    pub author: Seq<char>,
    pub publisher: Seq<char>,
    pub license: Seq<char>,
    pub repository: Seq<char>,
    pub icon: Seq<char>,
    pub engines: Map<Seq<char>, Seq<char>>,
    pub categories: Seq<Seq<char>>,
    pub extension_pack: Seq<Seq<char>>,
    pub scripts: Map<Seq<char>, Seq<char>>,
    pub overwrite: bool,
}

impl View for PackageJson {
    type V = PackageJsonView;

    open spec fn view(&self) -> PackageJsonView {
        PackageJsonView {
            name: self.name@,
            display_name: self.display_name@,
            version: self.version@,
            description: self.description@,
            author: self.author@,
            publisher: self.publisher@,
            license: self.license@,
            repository: self.repository@,
            icon: self.icon@,
            engines: self.engines@,
            categories: strings(self.categories@),
            extension_pack: strings(self.extension_pack@),
            scripts: self.scripts@,
            overwrite: self.overwrite,
        }
    }
}

/// The file name under which a module's icon is stored beside its manifest.
pub open spec fn icon_file_name_text() -> Seq<char> {
    "icon.png"@
}

/// The file name under which a module's icon is stored beside its manifest.
pub fn icon_file_name() -> (name: String)
    ensures
        name@ == icon_file_name_text(),
{
    String::from_str("icon.png")
}

impl PackageJson {
    /// Records that the module's icon has been made: the manifest names the
    /// icon's file. Nothing else changes.
    pub fn assign_icon(&mut self)
        ensures
            final(self)@ == (PackageJsonView { icon: icon_file_name_text(), ..old(self)@ }),
    {
        self.icon = icon_file_name();
    }

    /// Whether the manifest is to be written where a file may exist already:
    /// an existing file is kept unless the pack asks to overwrite.
    pub fn should_write(&self, exists: bool) -> (write: bool)
        ensures
            write == (self@.overwrite || !exists),
    {
        self.overwrite || !exists
    }
}

/// What a list of manifests holds.
pub open spec fn manifests_view(list: Seq<PackageJson>) -> Seq<PackageJsonView> {
    list.map_values(|m: PackageJson| m@)
}

/// The scripts of every manifest: the one command that builds the module.
pub open spec fn build_script_map() -> Map<Seq<char>, Seq<char>> {
    Map::<Seq<char>, Seq<char>>::empty().insert("build-extension"@, "vsce package"@)
}

/// The scripts of every manifest.
pub fn default_build_script() -> (scripts: StringMap)
    ensures
        scripts@ == build_script_map(),
{
    let mut scripts = StringMap::new();
    scripts.insert(String::from_str("build-extension"), String::from_str("vsce package"));
    scripts
}

/// The manifest of `module` in a pack whose shared part is `common`. The icon
/// is left empty: it is assigned once the module's icon has been made.
pub open spec fn manifest_of(common: CommonView, module: ModuleView) -> PackageJsonView {
    PackageJsonView {
        name: common.name_prefix + module.name,
        display_name: common.display_name_prefix + module.display_name,
        version: common.version,
        description: module.description,
        author: common.author,
        publisher: common.publisher,
        license: common.license,
        repository: common.repository,
        icon: Seq::empty(),
        engines: common.engines,
        categories: stable_dedup(common.categories + module.categories),
        extension_pack: module.packages,
        scripts: build_script_map(),
        overwrite: common.overwrite,
    }
}

/// The manifests of a pack: one for each module, in the order of the modules.
pub open spec fn manifests_of(pack: PackConfigView) -> Seq<PackageJsonView> {
    pack.modules.map_values(|m: ModuleView| manifest_of(pack.common, m))
}

/// The manifest of `module` in a pack whose shared part is `common`.
pub fn manifest_for(common: &Common, module: &Module) -> (manifest: PackageJson)
    ensures
        manifest@ == manifest_of(common@, module@),
{
    let mut name = common.name_prefix.clone();
    name.append(module.name.as_str());
    let mut display_name = common.display_name_prefix.clone();
    display_name.append(module.display_name.as_str());
    let mut lists: Vec<Vec<String>> = Vec::new();
    lists.push(common.categories.clone());
    lists.push(module.categories.clone());
    proof {
        lemma_merge_of_two(strings(common.categories@), strings(module.categories@));
        assert(lists@.map_values(|v: Vec<String>| strings(v@)) =~= seq![
            strings(common.categories@),
            strings(module.categories@),
        ]);
    }
    let categories = merge_and_deduplicate(lists);
    let extension_pack = module.packages.clone();
    assert(strings(extension_pack@) =~= strings(module.packages@));
    PackageJson {
        name,
        display_name,
        version: common.version.clone(),
        description: module.description.clone(),
        author: common.author.clone(),
        publisher: common.publisher.clone(),
        license: common.license.clone(),
        repository: common.repository.clone(),
        icon: String::new(),
        engines: common.engines.clone(),
        categories,
        extension_pack,
        scripts: default_build_script(),
        overwrite: common.overwrite,
    }
}

/// The manifests of a pack: one for each module, in the order of the modules.
/// The pack is not checked here: see `PackConfig::find_multiple_inheritance`.
pub fn transform(pack: &PackConfig) -> (manifests: Vec<PackageJson>)
    ensures
        manifests_view(manifests@) == manifests_of(pack@),
{
    let mut manifests: Vec<PackageJson> = Vec::new();
    let mut i: usize = 0;
    assert(manifests_view(manifests@) =~= manifests_of(pack@).take(0));
    while i < pack.modules.len()
        invariant
            i <= pack.modules.len(),
            manifests_view(manifests@) == manifests_of(pack@).take(i as int),
        decreases pack.modules.len() - i,
    {
        let ghost before = manifests_view(manifests@);
        let manifest = manifest_for(&pack.common, &pack.modules[i]);
        manifests.push(manifest);
        proof {
            assert(manifests_view(manifests@) =~= before.push(manifest@));
            assert(manifests_of(pack@).take(i + 1) =~= manifests_of(pack@).take(i as int).push(
                manifest@,
            ));
        }
        i += 1;
    }
    assert(manifests_of(pack@).take(pack.modules@.len() as int) =~= manifests_of(pack@));
    manifests
}

impl PackConfig {
    /// The manifests of a pack that keeps the ownership rule. A pack that
    /// breaks it gets no manifest, but the sentences that report its
    /// conflicts.
    pub fn manifests(&self) -> (outcome: Result<Vec<PackageJson>, Vec<String>>)
        ensures
            outcome is Ok <==> exclusive_ownership(self@.modules),
            match outcome {
                Ok(manifests) => manifests_view(manifests@) == manifests_of(self@),
                Err(errors) => errors@.len() > 0 && strings(errors@) == conflict_messages(
                    self@.modules,
                ),
            },
    {
        match self.find_multiple_inheritance() {
            Ok(_) => Ok(transform(self)),
            Err(errors) => Err(errors),
        }
    }
}

impl From<PackConfig> for Vec<PackageJson> {
    /// The manifests of the pack, as `transform` gives them.
    fn from(pack: PackConfig) -> (manifests: Self)
        ensures
            manifests_view(manifests@) == manifests_of(pack@),
    {
        transform(&pack)
    }
}

impl FromSpecImpl<PackConfig> for Vec<PackageJson> {
    /// Two lists of manifests may hold the same and yet not be one value, so
    /// the conversion is specified by what the result holds, in `from` itself.
    open spec fn obeys_from_spec() -> bool {
        false
    }

    open spec fn from_spec(pack: PackConfig) -> Self {
        choose|manifests: Vec<PackageJson>| manifests_view(manifests@) == manifests_of(pack@)
    }
}

/// Transforming is a function of what the pack holds: whenever two packs hold
/// the same, what `transform` makes of the one and of the other holds the
/// same, value for value.
pub proof fn lemma_transform_is_repeatable(
    first_pack: PackConfig,
    second_pack: PackConfig,
    first: Vec<PackageJson>,
    second: Vec<PackageJson>,
)
    requires
        first_pack@ == second_pack@,
        manifests_view(first@) == manifests_of(first_pack@),
        manifests_view(second@) == manifests_of(second_pack@),
    ensures
        manifests_view(first@) == manifests_view(second@),
        first@.len() == first_pack.modules@.len(),
{
    assert(manifests_view(first@).len() == first@.len());
    assert(manifests_of(first_pack@).len() == first_pack@.modules.len());
    assert(first_pack@.modules.len() == first_pack.modules@.len());
}

} // verus!
