//! The description of a pack: what all its modules share, and the modules.

use crate::text::strings;
use crate::string_map::StringMap;
use vstd::prelude::*;
use vstd::string::*;

verus! {

/// What every module of a pack shares.
#[derive(Debug)]
pub struct Common {
    pub version: String,
    pub overwrite: bool,
    pub author: String,
    pub publisher: String,
    pub license: String,
    pub engines: StringMap,
    pub categories: Vec<String>,
    pub name_prefix: String,
    pub display_name_prefix: String,
    pub icon_dir: String,
    pub icon: String,
    pub repository: String,
}

/// One module of a pack.
#[derive(Debug)]
pub struct Module {
    pub name: String,
    pub display_name: String,
    pub description: String,
    pub categories: Vec<String>,
    pub activation_events: Vec<String>,
    pub packages: Vec<String>,
}

/// A pack: the shared part and the modules in their order.
#[derive(Debug)]
pub struct PackConfig {
    pub common: Common,
    pub modules: Vec<Module>,
}

/// What a `Common` holds, as mathematical values.
pub struct CommonView {
    pub version: Seq<char>,
    pub overwrite: bool,
    pub author: Seq<char>,
    pub publisher: Seq<char>,
    pub license: Seq<char>,
    pub engines: Map<Seq<char>, Seq<char>>,
    pub categories: Seq<Seq<char>>,
    pub name_prefix: Seq<char>,
    pub display_name_prefix: Seq<char>,
    pub icon_dir: Seq<char>,
    pub icon: Seq<char>,
    pub repository: Seq<char>,
}

/// What a `Module` holds, as mathematical values.
pub struct ModuleView {
    pub name: Seq<char>,
    pub display_name: Seq<char>,
    pub description: Seq<char>,
    pub categories: Seq<Seq<char>>,
    pub activation_events: Seq<Seq<char>>,
    pub packages: Seq<Seq<char>>,
}

/// What a `PackConfig` holds, as mathematical values.
pub struct PackConfigView {
    pub common: CommonView,
    pub modules: Seq<ModuleView>,
}

impl View for Common {
    type V = CommonView;

    open spec fn view(&self) -> CommonView {
        CommonView {
            version: self.version@,
            overwrite: self.overwrite,
            author: self.author@,
            publisher: self.publisher@,
            license: self.license@,
            engines: self.engines@,
            categories: strings(self.categories@),
            name_prefix: self.name_prefix@,
            display_name_prefix: self.display_name_prefix@,
            icon_dir: self.icon_dir@,
            icon: self.icon@,
            repository: self.repository@,
        }
    }
}

impl View for Module {
    type V = ModuleView;

    open spec fn view(&self) -> ModuleView {
        ModuleView {
            name: self.name@,
            display_name: self.display_name@,
            description: self.description@,
            categories: strings(self.categories@),
            activation_events: strings(self.activation_events@),
            packages: strings(self.packages@),
        }
    }
}

/// What a list of modules holds.
pub open spec fn modules_view(modules: Seq<Module>) -> Seq<ModuleView> {
    modules.map_values(|m: Module| m@)
}

impl View for PackConfig {
    type V = PackConfigView;

    open spec fn view(&self) -> PackConfigView {
        PackConfigView { common: self.common@, modules: modules_view(self.modules@) }
    }
}

impl Common {
    /// The shared part of a pack that states its version and nothing else:
    /// the flag is off, the engines are the usual ones, the rest is empty.
    pub fn new(version: String) -> (common: Common)
        ensures
            common@.version == version@,
            !common@.overwrite,
            common@.author == Seq::<char>::empty(),
            common@.publisher == Seq::<char>::empty(),
            common@.license == Seq::<char>::empty(),
            common@.engines == default_engine_map(),
            common@.categories == Seq::<Seq<char>>::empty(),
            common@.name_prefix == Seq::<char>::empty(),
            common@.display_name_prefix == Seq::<char>::empty(),
            common@.icon_dir == Seq::<char>::empty(),
            common@.icon == Seq::<char>::empty(),
            common@.repository == Seq::<char>::empty(),
    {
        let common = Common {
            version,
            overwrite: default_bool_false(),
            author: String::new(),
            publisher: String::new(),
            license: String::new(),
            engines: default_engine(),
            categories: Vec::new(),
            name_prefix: String::new(),
            display_name_prefix: String::new(),
            icon_dir: String::new(),
            icon: String::new(),
            repository: String::new(),
        };
        assert(common@.categories =~= Seq::<Seq<char>>::empty());
        common
    }
}

impl Module {
    /// The module of this name and display name that states nothing else:
    /// no description, no categories, no activation events, no packages.
    pub fn new(name: String, display_name: String) -> (module: Module)
        ensures
            module@.name == name@,
            module@.display_name == display_name@,
            module@.description == Seq::<char>::empty(),
            module@.categories == Seq::<Seq<char>>::empty(),
            module@.activation_events == Seq::<Seq<char>>::empty(),
            module@.packages == Seq::<Seq<char>>::empty(),
    {
        let module = Module {
            name,
            display_name,
            description: String::new(),
            categories: Vec::new(),
            activation_events: Vec::new(),
            packages: Vec::new(),
        };
        assert(module@.categories =~= Seq::<Seq<char>>::empty());
        assert(module@.activation_events =~= Seq::<Seq<char>>::empty());
        assert(module@.packages =~= Seq::<Seq<char>>::empty());
        module
    }
}

/// The engine requirement of a pack that states none.
pub open spec fn default_engine_map() -> Map<Seq<char>, Seq<char>> {
    Map::<Seq<char>, Seq<char>>::empty().insert("vscode"@, "^1.78.0"@)
}

/// The engine requirement of a pack that states none.
pub fn default_engine() -> (engines: StringMap)
    ensures
        engines@ == default_engine_map(),
{
    let mut engines = StringMap::new();
    engines.insert(String::from_str("vscode"), String::from_str("^1.78.0"));
    engines
}

/// The value of a flag that a pack does not state.
pub fn default_bool_false() -> (flag: bool)
    ensures
        !flag,
{
    false
}

} // verus!
