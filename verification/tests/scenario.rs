use pgml_components::hash::{plan_publication, short_hash};
use pgml_components::modules::{assemble_modules, discover_sources, module_entries};
use pgml_components::pipeline::{exit_status, Stage};

#[test]
fn component_and_static_file_are_bundled() {
    let components = vec!["src/components/widget/foo.js".to_string()];
    let statics = vec!["static/js/bar.js".to_string()];

    let sources = discover_sources(&components, &statics);
    let entries = module_entries(&sources).unwrap();
    assert_eq!(entries.len(), 2);
    assert_eq!(entries[0].identifier, "widget-foo");
    assert_eq!(entries[0].symbol, "WidgetFoo");
    assert_eq!(entries[1].identifier, "bar");
    assert_eq!(entries[1].symbol, "Bar");

    let text = assemble_modules(&components, &statics).unwrap();
    let lines: Vec<&str> = text.lines().collect();
    assert_eq!(lines.len(), 7);
    assert_eq!(lines[0], "// Build with --bin components");
    assert_eq!(lines[1], "import { Application } from '@hotwired/stimulus'");
    assert_eq!(lines[2], "const application = Application.start()");
    assert_eq!(
        lines[3],
        "import { default as WidgetFoo } from '../../src/components/widget/foo.js'"
    );
    assert_eq!(lines[4], "application.register('widget-foo', WidgetFoo)");
    assert_eq!(lines[5], "import { default as Bar } from '../../static/js/bar.js'");
    assert_eq!(lines[6], "application.register('bar', Bar)");

    let first = plan_publication(b"X");
    let second = plan_publication(b"X");
    assert_eq!(first.hash.len(), 8);
    assert_eq!(first.hash, second.hash);
    assert_eq!(first.hash, short_hash(b"X"));
    assert_eq!(first.bundle_copy, format!("static/js/bundle.{}.js", first.hash));
    assert_eq!(first.main_copy, format!("static/js/main.{}.js", first.hash));
    assert_eq!(first.marker, format!("{}\n", first.hash));

    let mut stage = Stage::first();
    for _ in 0..4 {
        stage = stage.next(Ok(()));
    }
    assert_eq!(stage, Stage::Done);
    assert_eq!(exit_status(&stage.outcome().unwrap()), 0);
}
