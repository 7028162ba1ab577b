//! The fixed layout of a components project: where sources are looked for and where the
//! bundler leaves what it writes. All paths are relative to the project's directory.

use vstd::prelude::*;

verus! {

/// The entry module that imports every other JavaScript file.
pub const MODULES_FILE: &'static str = "static/js/modules.js";

/// The bundle.
pub const BUNDLE_FILE: &'static str = "static/js/bundle.js";

/// The legacy entry file, which is published beside the bundle.
pub const MAIN_FILE: &'static str = "static/js/main.js";

/// The marker file that records the short hash of the current bundle.
pub const HASH_FILE: &'static str = "static/js/.pgml-bundle";

/// What stands before the short hash in the name of a published bundle.
pub const HASHED_BUNDLE_PREFIX: &'static str = "static/js/bundle.";

/// What stands before the short hash in the name of a published legacy entry file.
pub const HASHED_MAIN_PREFIX: &'static str = "static/js/main.";

/// What stands after the short hash in the name of a published file.
pub const HASHED_SUFFIX: &'static str = ".js";

/// Matches the JavaScript files of the components.
pub const MODULES_GLOB: &'static str = "src/components/**/*.js";

/// Matches the JavaScript files of the static directory.
pub const STATIC_JS_GLOB: &'static str = "static/js/*.js";

/// Matches the files published by earlier runs.
pub const OLD_BUNDLES_GLOB: &'static str = "static/js/*.*.js";

/// The program that bundles the entry module.
pub const JS_COMPILER: &'static str = "rollup";

} // verus!
