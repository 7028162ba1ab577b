//! The course of a bundling run.
//!
//! A run goes through four steps in a fixed order: it removes what earlier runs
//! published, writes the entry module, has the bundler turn it into the bundle, and
//! publishes the bundle under its hash. The first step that fails aborts the run; nothing
//! is retried and nothing is undone. The steps touch the file system and start a process,
//! so a driver outside this crate performs them and reports how each one ended. What
//! follows from those reports is decided here.

use vstd::prelude::*;
use crate::layout::{BUNDLE_FILE, MODULES_FILE};
use crate::modules::AssembleError;
use crate::text::texts;

verus! {

/// Why a step failed.
#[derive(Clone, Copy, Debug, PartialEq, Eq, Structural)]
pub enum Failure {
    /// The files that match a pattern could not be listed.
    Enumeration,
    /// A file could not be read, written, copied or removed.
    Io,
    /// A path holds a component that is not valid UTF-8.
    Encoding,
    /// A matched file does not lie below a root.
    Unrooted,
    /// Two sources have the same identifier.
    DuplicateIdentifier,
    /// The bundler could not be started, or ended with the given status.
    Bundler(Option<i32>),
}

/// Where a run stands.
#[derive(Clone, Copy, Debug, PartialEq, Eq, Structural)]
pub enum Stage {
    /// Files published by earlier runs are to be removed.
    Clean,
    /// The entry module is to be written.
    Assemble,
    /// The bundler is to be run on the entry module.
    InvokeBundler,
    /// The bundle is to be hashed and published.
    HashAndPublish,
    /// Every step has succeeded.
    Done,
    /// A step has failed, for the given reason.
    Aborted(Failure),
}

/// The number of steps in a run.
pub const STEPS: usize = 4;

/// The stage of a run in which `done` steps have succeeded and none has failed.
pub open spec fn step(done: nat) -> Stage {
    if done == 0 {
        Stage::Clean
    } else if done == 1 {
        Stage::Assemble
    } else if done == 2 {
        Stage::InvokeBundler
    } else if done == 3 {
        Stage::HashAndPublish
    } else {
        Stage::Done
    }
}

/// A run in this stage has ended.
pub open spec fn has_ended(stage: Stage) -> bool {
    stage is Done || stage is Aborted
}

/// The stage that follows `stage` once its step has ended with `outcome`. A run that has
/// ended stays as it is; a failed step aborts the run with its failure; a successful step
/// leads to the next one, and the last one to the end.
pub open spec fn stage_after(stage: Stage, outcome: Result<(), Failure>) -> Stage {
    if has_ended(stage) {
        stage
    } else {
        match outcome {
            Err(failure) => Stage::Aborted(failure),
            Ok(_) => match stage {
                Stage::Clean => Stage::Assemble,
                Stage::Assemble => Stage::InvokeBundler,
                Stage::InvokeBundler => Stage::HashAndPublish,
                _ => Stage::Done,
            },
        }
    }
}

/// The stage of a run whose steps so far ended as `outcomes` tells, in order.
pub open spec fn stage_reached(outcomes: Seq<Result<(), Failure>>) -> Stage
    decreases outcomes.len(),
{
    if outcomes.len() == 0 {
        Stage::Clean
    } else {
        stage_after(stage_reached(outcomes.drop_last()), outcomes.last())
    }
}

/// How a run in this stage has ended, if it has.
pub open spec fn verdict(stage: Stage) -> Option<Result<(), Failure>> {
    match stage {
        Stage::Done => Some(Ok(())),
        Stage::Aborted(failure) => Some(Err(failure)),
        _ => None,
    }
}

/// The exit status of a process whose run ended with `outcome`: zero after a run that
/// succeeded, the bundler's own status where it failed with one, and one otherwise.
pub open spec fn status_of(outcome: Result<(), Failure>) -> int {
    match outcome {
        Ok(_) => 0,
        Err(Failure::Bundler(Some(code))) => if code != 0 {
            code as int
        } else {
            1
        },
        Err(_) => 1,
    }
}

/// The kind of failure that an error of the assembler stands for.
pub open spec fn failure_kind(error: AssembleError) -> Failure {
    match error {
        AssembleError::Unrooted(_) => Failure::Unrooted,
        AssembleError::DuplicateIdentifier(_) => Failure::DuplicateIdentifier,
    }
}

/// The arguments the bundler is started with: the entry module, the bundle to write and
/// the module format.
pub open spec fn bundler_command_line() -> Seq<Seq<char>> {
    seq![MODULES_FILE@, "--file"@, BUNDLE_FILE@, "--format"@, "es"@]
}

/// While every step succeeds, the run stands at the step that comes next.
pub proof fn lemma_steps_in_order(outcomes: Seq<Result<(), Failure>>)
    requires
        outcomes.len() <= STEPS,
        forall|i: int| 0 <= i < outcomes.len() ==> outcomes[i] is Ok,
    ensures
        stage_reached(outcomes) == step(outcomes.len()),
    decreases outcomes.len(),
{
    if outcomes.len() > 0 {
        lemma_steps_in_order(outcomes.drop_last());
    }
}

/// Once a step has failed the run is aborted with the failure of that step, whatever is
/// reported after it.
pub proof fn lemma_failure_aborts(outcomes: Seq<Result<(), Failure>>, failed: int)
    requires
        0 <= failed < outcomes.len(),
        failed < STEPS,
        outcomes[failed] is Err,
        forall|i: int| 0 <= i < failed ==> outcomes[i] is Ok,
    ensures
        stage_reached(outcomes) == Stage::Aborted(outcomes[failed]->Err_0),
    decreases outcomes.len(),
{
    let earlier = outcomes.drop_last();
    if failed == outcomes.len() - 1 {
        lemma_steps_in_order(earlier);
    } else {
        lemma_failure_aborts(earlier, failed);
    }
}

/// After its four steps a run has ended. It is done exactly when each of its steps
/// succeeded.
pub proof fn lemma_done_iff_all_succeeded(outcomes: Seq<Result<(), Failure>>)
    requires
        outcomes.len() == STEPS,
    ensures
        has_ended(stage_reached(outcomes)),
        stage_reached(outcomes) is Done <==> forall|i: int|
            0 <= i < outcomes.len() ==> outcomes[i] is Ok,
{
    if outcomes[0] is Err {
        lemma_failure_aborts(outcomes, 0);
    } else if outcomes[1] is Err {
        lemma_failure_aborts(outcomes, 1);
    } else if outcomes[2] is Err {
        lemma_failure_aborts(outcomes, 2);
    } else if outcomes[3] is Err {
        lemma_failure_aborts(outcomes, 3);
    } else {
        lemma_steps_in_order(outcomes);
    }
}

/// The exit status of a run that has ended is zero exactly when the run is done, that is
/// when no step has failed.
pub proof fn lemma_status_zero_iff_done(stage: Stage)
    requires
        has_ended(stage),
    ensures
        verdict(stage) is Some,
        status_of(verdict(stage)->Some_0) == 0 <==> stage is Done,
{
}

impl Stage {
    /// The stage a run starts in.
    pub fn first() -> (stage: Stage)
        ensures
            stage == stage_reached(Seq::<Result<(), Failure>>::empty()),
    {
        Stage::Clean
    }

    /// The stage that follows once the step of this stage has ended with `outcome`.
    pub fn next(self, outcome: Result<(), Failure>) -> (stage: Stage)
        ensures
            stage == stage_after(self, outcome),
    {
        match self {
            Stage::Done => self,
            Stage::Aborted(_) => self,
            _ => match outcome {
                Err(failure) => Stage::Aborted(failure),
                Ok(_) => match self {
                    Stage::Clean => Stage::Assemble,
                    Stage::Assemble => Stage::InvokeBundler,
                    Stage::InvokeBundler => Stage::HashAndPublish,
                    _ => Stage::Done,
                },
            },
        }
    }

    /// How the run has ended, or `None` while a step is still to be taken.
    pub fn outcome(self) -> (ended: Option<Result<(), Failure>>)
        ensures
            ended == verdict(self),
            ended is Some <==> has_ended(self),
    {
        match self {
            Stage::Done => Some(Ok(())),
            Stage::Aborted(failure) => Some(Err(failure)),
            _ => None,
        }
    }
}

impl Failure {
    /// The kind of failure that an error of the assembler stands for.
    pub fn of_assembly(error: &AssembleError) -> (failure: Failure)
        ensures
            failure == failure_kind(*error),
    {
        match error {
            AssembleError::Unrooted(_) => Failure::Unrooted,
            AssembleError::DuplicateIdentifier(_) => Failure::DuplicateIdentifier,
        }
    }
}

/// The exit status of a process whose run ended with `outcome`.
pub fn exit_status(outcome: &Result<(), Failure>) -> (status: i32)
    ensures
        status == status_of(*outcome),
        status == 0 <==> *outcome is Ok,
{
    match outcome {
        Ok(_) => 0,
        Err(Failure::Bundler(Some(code))) => if *code != 0 {
            *code
        } else {
            1
        },
        Err(_) => 1,
    }
}

/// The arguments to start the bundler with.
pub fn bundler_arguments() -> (arguments: Vec<String>)
    ensures
        texts(arguments@) == bundler_command_line(),
{
    let mut arguments: Vec<String> = Vec::new();
    arguments.push(String::from_str(MODULES_FILE));
    arguments.push(String::from_str("--file"));
    arguments.push(String::from_str(BUNDLE_FILE));
    arguments.push(String::from_str("--format"));
    arguments.push(String::from_str("es"));
    assert(texts(arguments@) =~= bundler_command_line());
    arguments
}

} // verus!
