use pgml_components::hash::{hashed_bundle_file, hashed_main_file};
use pgml_components::layout::{
    BUNDLE_FILE, HASH_FILE, JS_COMPILER, MAIN_FILE, MODULES_FILE, MODULES_GLOB,
    OLD_BUNDLES_GLOB, STATIC_JS_GLOB,
};
use pgml_components::modules::is_generated_artifact;

#[test]
fn layout_is_fixed() {
    assert_eq!(MODULES_FILE, "static/js/modules.js");
    assert_eq!(BUNDLE_FILE, "static/js/bundle.js");
    assert_eq!(MAIN_FILE, "static/js/main.js");
    assert_eq!(HASH_FILE, "static/js/.pgml-bundle");
    assert_eq!(MODULES_GLOB, "src/components/**/*.js");
    assert_eq!(STATIC_JS_GLOB, "static/js/*.js");
    assert_eq!(OLD_BUNDLES_GLOB, "static/js/*.*.js");
    assert_eq!(JS_COMPILER, "rollup");
}

#[test]
fn written_files_are_no_sources() {
    assert!(is_generated_artifact(MODULES_FILE));
    assert!(is_generated_artifact(BUNDLE_FILE));
    assert!(is_generated_artifact(MAIN_FILE));
}

#[test]
fn published_files_lie_beside_what_they_copy() {
    assert_eq!(hashed_bundle_file("0a1b2c3d"), "static/js/bundle.0a1b2c3d.js");
    assert_eq!(hashed_main_file("0a1b2c3d"), "static/js/main.0a1b2c3d.js");
    assert!(hashed_bundle_file("0a1b2c3d").starts_with("static/js/"));
    assert!(hashed_main_file("0a1b2c3d").ends_with(".js"));
}
