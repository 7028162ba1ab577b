use pgml_components::modules::AssembleError;
use pgml_components::pipeline::{bundler_arguments, exit_status, Failure, Stage};

const STEPS: [Stage; 4] =
    [Stage::Clean, Stage::Assemble, Stage::InvokeBundler, Stage::HashAndPublish];

#[test]
fn run_starts_with_cleaning() {
    assert_eq!(Stage::first(), Stage::Clean);
    assert_eq!(Stage::first().outcome(), None);
}

#[test]
fn successful_steps_follow_in_order() {
    let stage = Stage::first();
    let stage = stage.next(Ok(()));
    assert_eq!(stage, Stage::Assemble);
    let stage = stage.next(Ok(()));
    assert_eq!(stage, Stage::InvokeBundler);
    let stage = stage.next(Ok(()));
    assert_eq!(stage, Stage::HashAndPublish);
    let stage = stage.next(Ok(()));
    assert_eq!(stage, Stage::Done);
    assert_eq!(stage.outcome(), Some(Ok(())));
}

#[test]
fn any_failed_step_aborts_with_its_failure() {
    for stage in STEPS {
        assert_eq!(stage.outcome(), None);
        assert_eq!(stage.next(Err(Failure::Io)), Stage::Aborted(Failure::Io));
        assert_eq!(
            stage.next(Err(Failure::Bundler(Some(3)))).outcome(),
            Some(Err(Failure::Bundler(Some(3))))
        );
    }
}

#[test]
fn ended_run_stays_ended() {
    let aborted = Stage::Aborted(Failure::DuplicateIdentifier);
    assert_eq!(Stage::Done.next(Ok(())), Stage::Done);
    assert_eq!(Stage::Done.next(Err(Failure::Io)), Stage::Done);
    assert_eq!(aborted.next(Ok(())), aborted);
    assert_eq!(aborted.next(Err(Failure::Io)), aborted);
}

#[test]
fn run_with_a_failed_step_never_gets_done() {
    for failing in 0..4 {
        let mut stage = Stage::first();
        for step in 0..4 {
            let outcome = if step == failing { Err(Failure::Enumeration) } else { Ok(()) };
            stage = stage.next(outcome);
        }
        assert_eq!(stage, Stage::Aborted(Failure::Enumeration));
        let status = exit_status(&stage.outcome().unwrap());
        assert_ne!(status, 0);
    }
}

#[test]
fn first_failure_is_the_one_kept() {
    let stage = Stage::first().next(Ok(())).next(Err(Failure::DuplicateIdentifier));
    let stage = stage.next(Err(Failure::Io)).next(Ok(()));
    assert_eq!(stage.outcome(), Some(Err(Failure::DuplicateIdentifier)));
}

#[test]
fn exit_status_is_zero_only_on_success() {
    assert_eq!(exit_status(&Ok(())), 0);
    for failure in [
        Failure::Enumeration,
        Failure::Io,
        Failure::Encoding,
        Failure::Unrooted,
        Failure::DuplicateIdentifier,
        Failure::Bundler(None),
    ] {
        assert_eq!(exit_status(&Err(failure)), 1);
    }
}

#[test]
fn exit_status_passes_on_the_bundler_status() {
    assert_eq!(exit_status(&Err(Failure::Bundler(Some(2)))), 2);
    assert_eq!(exit_status(&Err(Failure::Bundler(Some(127)))), 127);
    assert_eq!(exit_status(&Err(Failure::Bundler(Some(-1)))), -1);
    assert_eq!(exit_status(&Err(Failure::Bundler(Some(0)))), 1);
}

#[test]
fn assembler_errors_have_their_kinds() {
    assert_eq!(
        Failure::of_assembly(&AssembleError::DuplicateIdentifier("foo-bar".to_string())),
        Failure::DuplicateIdentifier
    );
    assert_eq!(
        Failure::of_assembly(&AssembleError::Unrooted("static/js".to_string())),
        Failure::Unrooted
    );
}

#[test]
fn duplicate_identifiers_end_the_run_with_a_failure_status() {
    let sources = vec!["src/components/foo/bar.js".to_string(), "static/js/foo-bar.js".to_string()];
    let error = pgml_components::modules::module_entries(&sources).unwrap_err();
    let stage = Stage::Assemble.next(Err(Failure::of_assembly(&error)));
    assert_eq!(stage, Stage::Aborted(Failure::DuplicateIdentifier));
    assert_eq!(exit_status(&stage.outcome().unwrap()), 1);
}

#[test]
fn bundler_is_given_entry_output_and_format() {
    assert_eq!(
        bundler_arguments(),
        vec!["static/js/modules.js", "--file", "static/js/bundle.js", "--format", "es"]
    );
}
