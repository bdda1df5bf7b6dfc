//! Taking the steps of a plan. The library hands out one step at a time;
//! the caller takes it and reports how it went. A step is handed out only
//! when every step before it went well, and the first failure ends the run:
//! nothing is tried again and nothing that was done is undone.

use crate::path::{archive_name, archive_name_of};
use crate::plan::{
    archive_comes_last, archive_step, creation_index, dry_run_only_lists,
    output_directory_comes_first, plan_of, Action, ActionView,
};
use crate::util::{conflict, io_failure, ErrorView, FatalError, VerboseLevel};
use crate::validate::EntryView;
use vstd::prelude::*;

verus! {

/// How a step went.
#[derive(Debug, Clone, PartialEq, Eq)]
pub enum Outcome {
    /// It was taken.
    Done,
    /// It could not be taken. `exists` says that what it was to make is
    /// there already; `cause` is what the system said.
    Failed { exists: bool, cause: String },
}

/// An `Outcome` as contracts see it.
pub enum OutcomeView {
    Done,
    Failed { exists: bool, cause: Seq<char> },
}

impl View for Outcome {
    type V = OutcomeView;

    open spec fn view(&self) -> OutcomeView {
        match self {
            Outcome::Done => OutcomeView::Done,
            Outcome::Failed { exists, cause } => OutcomeView::Failed {
                exists: *exists,
                cause: cause@,
            },
        }
    }
}

/// A run as contracts see it: the plan, how many of its steps have been
/// taken, and the error that ended it, if one did.
pub struct RunView {
    pub plan: Seq<ActionView>,
    pub done: nat,
    pub failure: Option<ErrorView>,
}

/// The step that is to be taken next: the first one not yet taken, unless
/// the run has failed or is through.
pub open spec fn pending(run: RunView) -> Option<ActionView> {
    if run.failure is None && run.done < run.plan.len() {
        Some(run.plan[run.done as int])
    } else {
        None
    }
}

/// The error that a failed step ends the run with. An output directory
/// that cannot be made because it is there already is a conflict and is
/// named; every other failure is passed on with its cause.
pub open spec fn failure_of(action: ActionView, exists: bool, cause: Seq<char>) -> ErrorView {
    match action {
        ActionView::CreateDir(path) => if exists {
            conflict(path)
        } else {
            io_failure(cause)
        },
        _ => io_failure(cause),
    }
}

/// The run after the pending step went as `outcome` says. A run without a
/// pending step stays as it is.
pub open spec fn after(run: RunView, outcome: OutcomeView) -> RunView {
    match pending(run) {
        None => run,
        Some(action) => match outcome {
            OutcomeView::Done => RunView { done: run.done + 1, ..run },
            OutcomeView::Failed { exists, cause } => RunView {
                failure: Some(failure_of(action, exists, cause)),
                ..run
            },
        },
    }
}

/// How the run ended: with its error, or well once every step is taken.
/// Nothing while a step is pending.
pub open spec fn result_of(run: RunView) -> Option<Result<(), ErrorView>> {
    match run.failure {
        Some(error) => Some(Err(error)),
        None => if run.done < run.plan.len() {
            None
        } else {
            Some(Ok(()))
        },
    }
}

/// The result of a run as contracts see it.
pub open spec fn result_view(result: Option<Result<(), FatalError>>) -> Option<
    Result<(), ErrorView>,
> {
    match result {
        None => None,
        Some(Ok(_)) => Some(Ok(())),
        Some(Err(error)) => Some(Err(error@)),
    }
}

/// The course of one run through its plan.
#[derive(Debug)]
pub struct Run {
    plan: Vec<Action>,
    done: usize,
    failure: Option<FatalError>,
}

impl View for Run {
    type V = RunView;

    closed spec fn view(&self) -> RunView {
        RunView {
            plan: self.plan.deep_view(),
            done: self.done as nat,
            failure: self.failure.deep_view(),
        }
    }
}

impl Run {
    #[verifier::type_invariant]
    spec fn in_bounds(self) -> bool {
        self.done <= self.plan.len()
    }

    /// A run that is about to take the first step of `plan`.
    pub fn new(plan: Vec<Action>) -> (run: Run)
        ensures
            run@ == (RunView { plan: plan.deep_view(), done: 0, failure: None }),
    {
        Run { plan, done: 0, failure: None }
    }

    /// The step to take next, if there is one.
    pub fn pending(&self) -> (action: Option<&Action>)
        ensures
            action.deep_view() == pending(self@),
            self@.done <= self@.plan.len(),
    {
        proof {
            use_type_invariant(self);
        }
        if self.failure.is_none() && self.done < self.plan.len() {
            Some(&self.plan[self.done])
        } else {
            None
        }
    }

    /// Takes note of how the pending step went. After `Done` the next step
    /// is pending; after a failure none is, and the run has its error.
    /// Where no step was pending nothing changes.
    pub fn report(&mut self, outcome: Outcome)
        ensures
            final(self)@ == after(old(self)@, outcome@),
    {
        proof {
            use_type_invariant(&*self);
        }
        if self.failure.is_none() && self.done < self.plan.len() {
            match outcome {
                Outcome::Done => {
                    self.done = self.done + 1;
                },
                Outcome::Failed { exists, cause } => {
                    let error = match &self.plan[self.done] {
                        Action::CreateDir(path) => if exists {
                            FatalError::already_exists(path.as_str())
                        } else {
                            FatalError::error(cause.as_str())
                        },
                        _ => FatalError::error(cause.as_str()),
                    };
                    self.failure = Some(error);
                },
            }
        }
    }

    /// How the run ended, once it has: with the error of the step that
    /// failed, or well.
    pub fn result(&self) -> (result: Option<Result<(), FatalError>>)
        ensures
            result_view(result) == result_of(self@),
    {
        match &self.failure {
            Some(error) => Some(Err(error.duplicate())),
            None => if self.done < self.plan.len() {
                None
            } else {
                Some(Ok(()))
            },
        }
    }
}

/// How a run ended, for whoever ends the process: well, with the output
/// directory of the run and the archive that took its place where one was
/// made, or with the error that ended it.
#[derive(Debug, Clone, PartialEq, Eq)]
pub enum BackupResult {
    Success { directory: String, archive: Option<String> },
    Failure(FatalError),
}

/// A `BackupResult` as contracts see it.
pub enum ResultView {
    Success { directory: Seq<char>, archive: Option<Seq<char>> },
    Failure(ErrorView),
}

impl View for BackupResult {
    type V = ResultView;

    open spec fn view(&self) -> ResultView {
        match self {
            BackupResult::Success { directory, archive } => ResultView::Success {
                directory: directory@,
                archive: archive.deep_view(),
            },
            BackupResult::Failure(error) => ResultView::Failure(error@),
        }
    }
}

/// What a run with the output directory `out` comes to. A run that ended
/// well names its output directory, and its archive if it was a backup with
/// compression; a dry run makes neither.
pub open spec fn concluded(
    out: Seq<char>,
    dry_run: bool,
    tar: bool,
    ended: Result<(), ErrorView>,
) -> ResultView {
    match ended {
        Err(error) => ResultView::Failure(error),
        Ok(_) => ResultView::Success {
            directory: out,
            archive: if tar && !dry_run {
                Some(archive_name_of(out))
            } else {
                None
            },
        },
    }
}

/// The status with which the process ends: 0 after a run that ended well,
/// and 1 after any failure.
pub open spec fn status_of(result: ResultView) -> int {
    match result {
        ResultView::Success { .. } => 0,
        ResultView::Failure(_) => 1,
    }
}

/// Sums up a run that has ended as `ended`.
pub fn conclude(out: &str, dry_run: bool, tar: bool, ended: Result<(), FatalError>) -> (result:
    BackupResult)
    ensures
        result@ == concluded(
            out@,
            dry_run,
            tar,
            match ended {
                Ok(_) => Ok(()),
                Err(error) => Err(error@),
            },
        ),
{
    match ended {
        Err(error) => BackupResult::Failure(error),
        Ok(_) => {
            let archive = if tar && !dry_run {
                Some(archive_name(out))
            } else {
                None
            };
            BackupResult::Success { directory: out.to_owned(), archive }
        },
    }
}

impl BackupResult {
    /// The status with which the process ends.
    pub fn exit_code(&self) -> (code: i32)
        ensures
            code == status_of(self@),
            code == 0 <==> self is Success,
    {
        match self {
            BackupResult::Success { .. } => 0,
            BackupResult::Failure(error) => error.exit_code(),
        }
    }
}

/// A failure is final: a run that has failed hands out no further step,
/// and no report changes it.
pub proof fn failure_is_final(run: RunView, outcome: OutcomeView)
    requires
        run.failure is Some,
    ensures
        pending(run) is None,
        after(run, outcome) == run,
        result_of(run) == Some(Err::<(), ErrorView>(run.failure->Some_0)),
{
}

/// Where the output directory is in the way, the run ends there with a
/// conflict that names it: no step after it is handed out, and none of
/// them has been.
pub proof fn conflict_ends_the_run(run: RunView, path: Seq<char>, cause: Seq<char>)
    requires
        pending(run) == Some(ActionView::CreateDir(path)),
    ensures
        ({
            let ended = after(run, OutcomeView::Failed { exists: true, cause });
            &&& ended.failure == Some(conflict(path))
            &&& ended.done == run.done
            &&& pending(ended) is None
            &&& result_of(ended) == Some(Err::<(), ErrorView>(conflict(path)))
        }),
{
}

/// Steps are taken in the order of the plan, one at a time: what is pending
/// is the step that follows those that went well, and after it went well
/// the one behind it is pending.
pub proof fn steps_follow_the_plan(run: RunView)
    requires
        run.failure is None,
        run.done < run.plan.len(),
    ensures
        pending(run) == Some(run.plan[run.done as int]),
        after(run, OutcomeView::Done).done == run.done + 1,
        after(run, OutcomeView::Done).failure is None,
        after(run, OutcomeView::Done).plan == run.plan,
{
}

/// A dry run changes nothing on the disk: whatever has been reported, the
/// step that its run hands out shows a line, if it hands out any.
pub proof fn dry_run_touches_nothing(
    entries: Seq<EntryView>,
    level: VerboseLevel,
    out: Seq<char>,
    tar: bool,
    run: RunView,
)
    requires
        run.plan == plan_of(entries, level, out, true, tar),
    ensures
        pending(run) matches Some(action) ==> action is Print,
{
    dry_run_only_lists(entries, level, out, tar);
}

/// In a backup the output directory is made first. A step that acts on the
/// disk is handed out before that only if it is the making of the output
/// directory itself; so where the directory is in the way, nothing was
/// touched, and by `conflict_ends_the_run` nothing will be.
pub proof fn creation_precedes_the_rest(
    entries: Seq<EntryView>,
    level: VerboseLevel,
    out: Seq<char>,
    tar: bool,
    run: RunView,
)
    requires
        run.plan == plan_of(entries, level, out, false, tar),
        pending(run) is Some,
        !(pending(run)->Some_0 is Print),
    ensures
        run.done >= creation_index(level),
        run.done == creation_index(level) ==> pending(run) == Some(ActionView::CreateDir(out)),
{
    output_directory_comes_first(entries, level, out, tar);
}

/// The output directory is removed only after its archive was made: when
/// the removal is handed out, it is the last step of the plan and the step
/// before it, which has gone well, is the packing of this directory.
pub proof fn removal_follows_archive(
    entries: Seq<EntryView>,
    level: VerboseLevel,
    out: Seq<char>,
    tar: bool,
    run: RunView,
)
    requires
        run.plan == plan_of(entries, level, out, false, tar),
        pending(run) is Some,
        pending(run)->Some_0 is RemoveDirAll,
    ensures
        tar,
        pending(run) == Some(ActionView::RemoveDirAll(out)),
        run.done == run.plan.len() - 1,
        run.done >= 1,
        run.plan[run.done - 1] == archive_step(out),
{
    archive_comes_last(entries, level, out, tar);
}

} // verus!
