//! Turns the description of a pack of editor extensions into one manifest per
//! module, checks that no bundled package is claimed by two modules, and
//! stamps a module's badge onto the pack's icon.

pub mod badge_files;
pub mod clone_with;
pub mod dedup;
pub mod icon_overlay;
pub mod ownership;
pub mod pack_config;
pub mod package_json;
pub mod raster;
pub mod resample;
pub mod scripts;
pub mod string_map;
pub mod text;
