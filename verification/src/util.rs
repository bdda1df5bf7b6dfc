//! What a run says, how it fails and what it does: the three levels of
//! output and the lines that pass them, the errors that end a run, and the
//! planning of a backup.

use crate::path::{archive_member, archive_name, archive_root, destination, is_nested, landing};
use crate::plan::{archiving, copies, copying, plan_of, preview, said, Action, ActionView};
use crate::validate::{EntryKind, EntryView, ValidatedEntry};
use vstd::prelude::*;

verus! {

/// How much a run says: everything, the ordinary lines, or nothing.
#[derive(Debug, Clone, Copy, PartialEq, Eq)]
pub enum VerboseLevel {
    On,
    Reg,
    Off,
}

/// What marks a line that only the most talkative level shows.
pub open spec fn debug_mark() -> Seq<char> {
    "[Debug] "@
}

/// The line that an ordinary message becomes at `level`, if it is shown.
pub open spec fn noted(level: VerboseLevel, message: Seq<char>) -> Option<Seq<char>> {
    match level {
        VerboseLevel::Off => None,
        _ => Some(message),
    }
}

/// The line that a message for the curious becomes at `level`, if it is
/// shown: the message behind the mark.
pub open spec fn traced(level: VerboseLevel, message: Seq<char>) -> Option<Seq<char>> {
    match level {
        VerboseLevel::On => Some(debug_mark() + message),
        _ => None,
    }
}

/// Decides for each line of output whether it is shown.
#[derive(Debug, Clone, Copy, PartialEq, Eq)]
pub struct VerbosePrint {
    pub level: VerboseLevel,
}

impl VerbosePrint {
    /// A line for the curious: shown, behind its mark, at level `On` only.
    pub fn debug(&self, s: &str) -> (line: Option<String>)
        ensures
            line.deep_view() == traced(self.level, s@),
    {
        match self.level {
            VerboseLevel::On => {
                let mut line = "[Debug] ".to_owned();
                line.append(s);
                Some(line)
            },
            _ => None,
        }
    }

    /// An ordinary line: shown as it is unless the level is `Off`.
    pub fn println(&self, s: &str) -> (line: Option<String>)
        ensures
            line.deep_view() == noted(self.level, s@),
    {
        match self.level {
            VerboseLevel::On | VerboseLevel::Reg => Some(s.to_owned()),
            VerboseLevel::Off => None,
        }
    }
}

/// Why a run ends early.
#[derive(Debug, Clone, Copy, PartialEq, Eq)]
pub enum ErrorKind {
    /// The options contradict each other or name nothing to back up.
    Usage,
    /// A path that was to be backed up, or the manifest, does not exist.
    NotFound,
    /// The output directory is already there.
    Conflict,
    /// A step on the disk went wrong.
    Io,
}

/// An error that ends the run: its kind, and the path or the cause that it
/// is about. No error is recovered from.
#[derive(Debug, Clone, PartialEq, Eq)]
pub struct FatalError {
    pub kind: ErrorKind,
    pub subject: String,
}

/// A `FatalError` as contracts see it.
pub struct ErrorView {
    pub kind: ErrorKind,
    pub subject: Seq<char>,
}

impl View for FatalError {
    type V = ErrorView;

    open spec fn view(&self) -> ErrorView {
        ErrorView { kind: self.kind, subject: self.subject@ }
    }
}

impl DeepView for FatalError {
    type V = ErrorView;

    open spec fn deep_view(&self) -> ErrorView {
        self@
    }
}

/// The error for a path that is neither a file nor a directory.
pub open spec fn not_found(path: Seq<char>) -> ErrorView {
    ErrorView { kind: ErrorKind::NotFound, subject: path }
}

/// The error for an output directory that exists already.
pub open spec fn conflict(path: Seq<char>) -> ErrorView {
    ErrorView { kind: ErrorKind::Conflict, subject: path }
}

/// The error for a step that failed, with the cause as it was reported.
pub open spec fn io_failure(cause: Seq<char>) -> ErrorView {
    ErrorView { kind: ErrorKind::Io, subject: cause }
}

/// The error for options that cannot be used as given.
pub open spec fn misuse(complaint: Seq<char>) -> ErrorView {
    ErrorView { kind: ErrorKind::Usage, subject: complaint }
}

/// The one line that tells the user of an error. It names the path for a
/// missing file and for a directory in the way, and otherwise is the cause
/// or complaint itself.
pub open spec fn message_of(error: ErrorView) -> Seq<char> {
    match error.kind {
        ErrorKind::NotFound => "Error: File "@ + error.subject + " not found"@,
        ErrorKind::Conflict => "Error: Directory "@ + error.subject + " already exists"@,
        ErrorKind::Usage => error.subject,
        ErrorKind::Io => error.subject,
    }
}

impl FatalError {
    /// The error for the missing file or directory `file_name`.
    pub fn file_not_found(file_name: &str) -> (error: FatalError)
        ensures
            error@ == not_found(file_name@),
    {
        FatalError { kind: ErrorKind::NotFound, subject: file_name.to_owned() }
    }

    /// The error for a failed step, from the cause `msg` that came with it.
    pub fn error(msg: &str) -> (error: FatalError)
        ensures
            error@ == io_failure(msg@),
    {
        FatalError { kind: ErrorKind::Io, subject: msg.to_owned() }
    }

    /// The error for the output directory `path` that is already there.
    pub fn already_exists(path: &str) -> (error: FatalError)
        ensures
            error@ == conflict(path@),
    {
        FatalError { kind: ErrorKind::Conflict, subject: path.to_owned() }
    }

    /// The error for unusable options, with the complaint to show.
    pub fn usage(complaint: &str) -> (error: FatalError)
        ensures
            error@ == misuse(complaint@),
    {
        FatalError { kind: ErrorKind::Usage, subject: complaint.to_owned() }
    }

    /// The line to show on the error stream.
    pub fn message(&self) -> (line: String)
        ensures
            line@ == message_of(self@),
    {
        match self.kind {
            ErrorKind::NotFound => {
                let mut line = "Error: File ".to_owned();
                line.append(self.subject.as_str());
                line.append(" not found");
                line
            },
            ErrorKind::Conflict => {
                let mut line = "Error: Directory ".to_owned();
                line.append(self.subject.as_str());
                line.append(" already exists");
                line
            },
            ErrorKind::Usage => self.subject.clone(),
            ErrorKind::Io => self.subject.clone(),
        }
    }

    /// The status with which the process ends on this error: never 0.
    pub fn exit_code(&self) -> (code: i32)
        ensures
            code == 1,
    {
        1
    }

    /// A copy of the error.
    pub fn duplicate(&self) -> (error: FatalError)
        ensures
            error@ == self@,
    {
        FatalError { kind: self.kind, subject: self.subject.clone() }
    }
}

fn say(plan: &mut Vec<Action>, line: Option<String>)
    ensures
        final(plan).deep_view() == old(plan).deep_view() + said(line.deep_view()),
{
    let ghost before = plan.deep_view();
    match line {
        Some(line) => {
            plan.push(Action::Print(line));
            assert(plan.deep_view() == before + seq![ActionView::Print(line@)]);
        },
        None => {
            assert(plan.deep_view() == before + Seq::<ActionView>::empty());
        },
    }
}

fn step(plan: &mut Vec<Action>, action: Action)
    ensures
        final(plan).deep_view() == old(plan).deep_view() + seq![action@],
{
    let ghost before = plan.deep_view();
    plan.push(action);
    assert(plan.deep_view() == before + seq![action@]);
}

fn plan_copy(plan: &mut Vec<Action>, print: &VerbosePrint, out: &str, entry: &ValidatedEntry)
    ensures
        final(plan).deep_view() == old(plan).deep_view() + copying(print.level, out@, entry@),
{
    let ghost before = plan.deep_view();
    let source = entry.source_path.as_str();
    let mut line = "Copying file \"".to_owned();
    line.append(source);
    line.append("\" to \"");
    line.append(out);
    line.append("\"");
    say(plan, print.debug(line.as_str()));
    if is_nested(source) {
        step(plan, Action::CreateDirAll(destination(out, source)));
    }
    let recursive = match entry.kind {
        EntryKind::Directory => true,
        EntryKind::File => false,
    };
    step(plan, Action::Copy { from: source.to_owned(), to: landing(out, source), recursive });
    proof {
        reveal(copying);
    }
    assert(plan.deep_view() == before + copying(print.level, out@, entry@));
}

/// Plans a run over the validated entries `paths` with the output directory
/// `out`. A dry run is planned as a preview: the header and one indented
/// line for each entry, and no step that touches the disk. A backup is
/// planned as its header line, the making of the output directory, the
/// copies of the entries in their order, each to its place in or below the
/// output directory and under its own base name, and, where `tar` is set,
/// the archive beside the output directory and then the removal of the
/// directory. Which lines are part of the plan is decided by `print`.
/// Nothing is done here: the steps are taken by whoever drives a `Run`
/// over the plan.
pub fn backup(
    paths: &[ValidatedEntry],
    print: &VerbosePrint,
    out: &str,
    dry_run: bool,
    tar: bool,
) -> (plan: Vec<Action>)
    ensures
        plan.deep_view() == plan_of(paths.deep_view(), print.level, out@, dry_run, tar),
{
    let mut plan: Vec<Action> = Vec::new();
    assert(plan.deep_view() == Seq::<ActionView>::empty());
    assert(paths.deep_view().take(0) == Seq::<EntryView>::empty());
    if dry_run {
        say(&mut plan, print.println("Files to be backed up:"));
        let mut i: usize = 0;
        while i < paths.len()
            invariant
                i <= paths.len(),
                plan.deep_view() == preview(print.level, paths.deep_view().take(i as int)),
            decreases paths.len() - i,
        {
            let mut line = "    ".to_owned();
            line.append(paths[i].source_path.as_str());
            proof {
                let next = paths.deep_view().take(i + 1);
                assert(next.drop_last() == paths.deep_view().take(i as int));
                assert(next.last() == paths[i as int]@);
            }
            say(&mut plan, print.println(line.as_str()));
            i += 1;
        }
        assert(paths.deep_view().take(paths.len() as int) == paths.deep_view());
        return plan;
    }
    say(&mut plan, print.println("Backing up"));
    step(&mut plan, Action::CreateDir(out.to_owned()));
    let ghost opening = plan.deep_view();
    let mut i: usize = 0;
    assert(plan.deep_view() == opening + Seq::<ActionView>::empty());
    while i < paths.len()
        invariant
            i <= paths.len(),
            plan.deep_view() == opening + copies(print.level, out@, paths.deep_view().take(i as int)),
        decreases paths.len() - i,
    {
        proof {
            let next = paths.deep_view().take(i + 1);
            assert(next.drop_last() == paths.deep_view().take(i as int));
            assert(next.last() == paths[i as int]@);
        }
        let ghost before = copies(print.level, out@, paths.deep_view().take(i as int));
        plan_copy(&mut plan, print, out, &paths[i]);
        assert(plan.deep_view() == opening + (before + copying(print.level, out@, paths[i as int]@)));
        i += 1;
    }
    assert(paths.deep_view().take(paths.len() as int) == paths.deep_view());
    let ghost copied = plan.deep_view();
    if tar {
        say(&mut plan, print.debug("Executing Tar"));
        step(
            &mut plan,
            Action::Archive {
                archive: archive_name(out),
                root: archive_root(out),
                member: archive_member(out),
            },
        );
        step(&mut plan, Action::RemoveDirAll(out.to_owned()));
        assert(plan.deep_view() == copied + archiving(print.level, out@));
    } else {
        assert(plan.deep_view() == copied + Seq::<ActionView>::empty());
    }
    plan
}

/// What a directory holds: the size of it all, and the paths of the files
/// and of the directories in it and below it.
#[derive(Debug, Clone, PartialEq, Eq)]
pub struct DirContent {
    pub dir_size: u64,
    pub files: Vec<String>,
    pub directories: Vec<String>,
}

/// The paths of all files that `dir` holds, in the order in which it lists
/// them. The directories are not among them.
pub fn all_paths(dir: DirContent) -> (paths: Vec<String>)
    ensures
        paths.deep_view() == dir.files.deep_view(),
{
    dir.files
}

} // verus!
