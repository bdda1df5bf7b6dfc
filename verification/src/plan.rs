//! The steps of a run. A backup is planned as a whole before anything is
//! touched: the plan is the list of steps, in the order in which they are
//! to be taken.

use crate::path::{
    archive_member_of, archive_name_of, archive_root_of, base_name, destination_of, folders,
    landing_keeps_the_name, landing_of,
};
use crate::util::{noted, traced, VerboseLevel};
use crate::validate::{EntryKind, EntryView};
use vstd::prelude::*;

verus! {

/// One step of a run.
#[derive(Debug, Clone, PartialEq, Eq)]
pub enum Action {
    /// Write the line to standard output.
    Print(String),
    /// Make the directory, which must not be there yet. Its parent is.
    CreateDir(String),
    /// Make the directory and the directories above it, as far as they are
    /// not there yet.
    CreateDirAll(String),
    /// Copy `from` to `to`, where nothing is yet; the directory that is to
    /// hold `to` is there. With all that is in it where `recursive` is set.
    Copy { from: String, to: String, recursive: bool },
    /// Pack the directory `member`, which stands in the directory `root`,
    /// into the compressed archive `archive`. The names in the archive
    /// begin with `member`.
    Archive { archive: String, root: String, member: String },
    /// Remove the directory with all that is in it.
    RemoveDirAll(String),
}

/// A step as contracts see it.
pub enum ActionView {
    Print(Seq<char>),
    CreateDir(Seq<char>),
    CreateDirAll(Seq<char>),
    Copy { from: Seq<char>, to: Seq<char>, recursive: bool },
    Archive { archive: Seq<char>, root: Seq<char>, member: Seq<char> },
    RemoveDirAll(Seq<char>),
}

impl View for Action {
    type V = ActionView;

    open spec fn view(&self) -> ActionView {
        match self {
            Action::Print(line) => ActionView::Print(line@),
            Action::CreateDir(path) => ActionView::CreateDir(path@),
            Action::CreateDirAll(path) => ActionView::CreateDirAll(path@),
            Action::Copy { from, to, recursive } => ActionView::Copy {
                from: from@,
                to: to@,
                recursive: *recursive,
            },
            Action::Archive { archive, root, member } => ActionView::Archive {
                archive: archive@,
                root: root@,
                member: member@,
            },
            Action::RemoveDirAll(path) => ActionView::RemoveDirAll(path@),
        }
    }
}

impl DeepView for Action {
    type V = ActionView;

    open spec fn deep_view(&self) -> ActionView {
        self@
    }
}

/// The step that shows a line, where there is a line to show.
pub open spec fn said(line: Option<Seq<char>>) -> Seq<ActionView> {
    match line {
        Some(line) => seq![ActionView::Print(line)],
        None => Seq::empty(),
    }
}

/// The first line of a preview.
pub open spec fn preview_header() -> Seq<char> {
    "Files to be backed up:"@
}

/// What stands before each path in a preview.
pub open spec fn preview_indent() -> Seq<char> {
    "    "@
}

/// The line that opens a backup.
pub open spec fn backup_header() -> Seq<char> {
    "Backing up"@
}

/// The detail given before an entry is copied.
pub open spec fn copying_line(source: Seq<char>, out: Seq<char>) -> Seq<char> {
    "Copying file \""@ + source + "\" to \""@ + out + "\""@
}

/// The detail given before the archive is made.
pub open spec fn archiving_line() -> Seq<char> {
    "Executing Tar"@
}

/// The preview of a backup: the header, then each entry's path behind the
/// indent, in the order of the entries; all of it only where ordinary lines
/// are shown.
pub open spec fn preview(level: VerboseLevel, entries: Seq<EntryView>) -> Seq<ActionView>
    decreases entries.len(),
{
    if entries.len() == 0 {
        said(noted(level, preview_header()))
    } else {
        preview(level, entries.drop_last()) + said(
            noted(level, preview_indent() + entries.last().source_path),
        )
    }
}

/// The copy that a step makes of an entry: from the entry's path, as it
/// was given, to its place in or below the output directory, where it
/// bears the entry's base name. A directory is copied with all that is in
/// it.
pub open spec fn copy_step(out: Seq<char>, entry: EntryView) -> ActionView {
    ActionView::Copy {
        from: entry.source_path,
        to: landing_of(out, entry.source_path),
        recursive: entry.kind == EntryKind::Directory,
    }
}

/// The steps that copy one entry: the detail, where details are shown; the
/// directories below the output directory that the entry's path leads
/// through, where it leads through any; then the copy itself.
#[verifier::opaque]
pub open spec fn copying(level: VerboseLevel, out: Seq<char>, entry: EntryView) -> Seq<
    ActionView,
> {
    said(traced(level, copying_line(entry.source_path, out))) + (if folders(
        entry.source_path,
    ).len() > 0 {
        seq![ActionView::CreateDirAll(destination_of(out, entry.source_path))]
    } else {
        Seq::empty()
    }) + seq![copy_step(out, entry)]
}

/// The steps that copy the entries, one entry after the other.
pub open spec fn copies(level: VerboseLevel, out: Seq<char>, entries: Seq<EntryView>) -> Seq<
    ActionView,
>
    decreases entries.len(),
{
    if entries.len() == 0 {
        Seq::empty()
    } else {
        copies(level, out, entries.drop_last()) + copying(level, out, entries.last())
    }
}

/// The step that packs the output directory.
pub open spec fn archive_step(out: Seq<char>) -> ActionView {
    ActionView::Archive {
        archive: archive_name_of(out),
        root: archive_root_of(out),
        member: archive_member_of(out),
    }
}

/// The steps that turn the output directory into an archive: the detail,
/// the archive, and last the removal of the directory.
pub open spec fn archiving(level: VerboseLevel, out: Seq<char>) -> Seq<ActionView> {
    said(traced(level, archiving_line())) + seq![
        archive_step(out),
        ActionView::RemoveDirAll(out),
    ]
}

/// The plan of a run. A dry run is a preview and nothing else. A backup
/// opens with its header line, makes the output directory, copies the
/// entries in their order and, where compression is asked for, ends with
/// the archive and the removal of the directory.
pub open spec fn plan_of(
    entries: Seq<EntryView>,
    level: VerboseLevel,
    out: Seq<char>,
    dry_run: bool,
    tar: bool,
) -> Seq<ActionView> {
    if dry_run {
        preview(level, entries)
    } else {
        said(noted(level, backup_header())) + seq![ActionView::CreateDir(out)] + copies(
            level,
            out,
            entries,
        ) + (if tar {
            archiving(level, out)
        } else {
            Seq::empty()
        })
    }
}

/// The test that picks the copies out of a plan.
pub open spec fn is_copy() -> spec_fn(ActionView) -> bool {
    |action: ActionView| action is Copy
}

/// The test that picks out of a plan the steps that make a new directory.
pub open spec fn makes_directory() -> spec_fn(ActionView) -> bool {
    |action: ActionView| action is CreateDir
}

/// The copies of the entries, one for each and in their order.
pub open spec fn copy_steps(out: Seq<char>, entries: Seq<EntryView>) -> Seq<ActionView> {
    Seq::new(entries.len(), |i: int| copy_step(out, entries[i]))
}

proof fn filter_of_none(keep: spec_fn(ActionView) -> bool)
    ensures
        Seq::<ActionView>::empty().filter(keep) == Seq::<ActionView>::empty(),
{
    reveal(Seq::filter);
}

proof fn filter_of_one(action: ActionView, keep: spec_fn(ActionView) -> bool)
    ensures
        seq![action].filter(keep) == if keep(action) {
            seq![action]
        } else {
            Seq::empty()
        },
{
    filter_of_none(keep);
    assert(seq![action] == Seq::<ActionView>::empty().push(action));
    Seq::<ActionView>::empty().lemma_filter_push(action, keep);
}

proof fn filter_of_said(line: Option<Seq<char>>)
    ensures
        said(line).filter(is_copy()) == Seq::<ActionView>::empty(),
        said(line).filter(makes_directory()) == Seq::<ActionView>::empty(),
{
    filter_of_none(is_copy());
    filter_of_none(makes_directory());
    if let Some(text) = line {
        filter_of_one(ActionView::Print(text), is_copy());
        filter_of_one(ActionView::Print(text), makes_directory());
    }
}

proof fn preview_is_a_listing(level: VerboseLevel, entries: Seq<EntryView>)
    ensures
        level == VerboseLevel::Off ==> preview(level, entries).len() == 0,
        level != VerboseLevel::Off ==> {
            &&& preview(level, entries).len() == entries.len() + 1
            &&& preview(level, entries)[0] == ActionView::Print(preview_header())
            &&& forall|i: int|
                0 <= i < entries.len() ==> #[trigger] preview(level, entries)[i + 1]
                    == ActionView::Print(preview_indent() + entries[i].source_path)
        },
    decreases entries.len(),
{
    if entries.len() > 0 {
        preview_is_a_listing(level, entries.drop_last());
        if level != VerboseLevel::Off {
            let shorter = preview(level, entries.drop_last());
            assert forall|i: int| 0 <= i < entries.len() implies #[trigger] preview(
                level,
                entries,
            )[i + 1] == ActionView::Print(preview_indent() + entries[i].source_path) by {
                if i < entries.len() - 1 {
                    assert(preview(level, entries)[i + 1] == shorter[i + 1]);
                    assert(entries[i] == entries.drop_last()[i]);
                }
            }
        }
    }
}

/// A dry run lists and does nothing else. Every step of its plan shows a
/// line. Where ordinary lines are shown, these are the header and then, for
/// each entry in the order of the entries, its path behind the indent; a
/// silent dry run has no step at all.
pub proof fn dry_run_only_lists(
    entries: Seq<EntryView>,
    level: VerboseLevel,
    out: Seq<char>,
    tar: bool,
)
    ensures
        ({
            let plan = plan_of(entries, level, out, true, tar);
            &&& forall|i: int| 0 <= i < plan.len() ==> #[trigger] plan[i] is Print
            &&& level == VerboseLevel::Off ==> plan.len() == 0
            &&& level != VerboseLevel::Off ==> {
                &&& plan.len() == entries.len() + 1
                &&& plan[0] == ActionView::Print(preview_header())
                &&& forall|i: int|
                    0 <= i < entries.len() ==> #[trigger] plan[i + 1] == ActionView::Print(
                        preview_indent() + entries[i].source_path,
                    )
            }
        }),
{
    preview_is_a_listing(level, entries);
    let plan = plan_of(entries, level, out, true, tar);
    assert forall|i: int| 0 <= i < plan.len() implies #[trigger] plan[i] is Print by {
        if i > 0 {
            assert(plan[(i - 1) + 1] is Print);
        }
    }
}

/// Whether a step is one of those that copying an entry consists of.
spec fn belongs_to_copying(action: ActionView) -> bool {
    action is Print || action is CreateDirAll || action is Copy
}

proof fn copying_is_one_copy(level: VerboseLevel, out: Seq<char>, entry: EntryView)
    ensures
        copying(level, out, entry).filter(is_copy()) == seq![copy_step(out, entry)],
        copying(level, out, entry).filter(makes_directory()) == Seq::<ActionView>::empty(),
        forall|i: int|
            0 <= i < copying(level, out, entry).len() ==> belongs_to_copying(
                #[trigger] copying(level, out, entry)[i],
            ),
{
    let line = said(traced(level, copying_line(entry.source_path, out)));
    let below = if folders(entry.source_path).len() > 0 {
        seq![ActionView::CreateDirAll(destination_of(out, entry.source_path))]
    } else {
        Seq::empty()
    };
    let copy = seq![copy_step(out, entry)];
    reveal(copying);
    assert(copying(level, out, entry) == line + below + copy);
    filter_of_none(is_copy());
    filter_of_none(makes_directory());
    filter_of_said(traced(level, copying_line(entry.source_path, out)));
    filter_of_one(copy_step(out, entry), is_copy());
    filter_of_one(copy_step(out, entry), makes_directory());
    if folders(entry.source_path).len() > 0 {
        let making = ActionView::CreateDirAll(destination_of(out, entry.source_path));
        filter_of_one(making, is_copy());
        filter_of_one(making, makes_directory());
    }
    Seq::filter_distributes_over_add(line, below, is_copy());
    Seq::filter_distributes_over_add(line + below, copy, is_copy());
    Seq::filter_distributes_over_add(line, below, makes_directory());
    Seq::filter_distributes_over_add(line + below, copy, makes_directory());
    assert((line + below + copy).filter(is_copy()) == copy);
    assert((line + below + copy).filter(makes_directory()) == Seq::<ActionView>::empty());
}

proof fn copies_are_copies(level: VerboseLevel, out: Seq<char>, entries: Seq<EntryView>)
    ensures
        copies(level, out, entries).filter(is_copy()) == copy_steps(out, entries),
        copies(level, out, entries).filter(makes_directory()) == Seq::<ActionView>::empty(),
    decreases entries.len(),
{
    if entries.len() > 0 {
        let front = entries.drop_last();
        let entry = entries.last();
        copies_are_copies(level, out, front);
        copying_is_one_copy(level, out, entry);
        Seq::filter_distributes_over_add(
            copies(level, out, front),
            copying(level, out, entry),
            is_copy(),
        );
        Seq::filter_distributes_over_add(
            copies(level, out, front),
            copying(level, out, entry),
            makes_directory(),
        );
        assert(copy_steps(out, entries) == copy_steps(out, front) + seq![copy_step(out, entry)]);
    } else {
        filter_of_none(is_copy());
        filter_of_none(makes_directory());
        assert(copy_steps(out, entries) == Seq::<ActionView>::empty());
    }
}

proof fn copies_only_copy(level: VerboseLevel, out: Seq<char>, entries: Seq<EntryView>)
    ensures
        forall|i: int|
            0 <= i < copies(level, out, entries).len() ==> belongs_to_copying(
                #[trigger] copies(level, out, entries)[i],
            ),
    decreases entries.len(),
{
    if entries.len() > 0 {
        let front = copies(level, out, entries.drop_last());
        let last = copying(level, out, entries.last());
        copies_only_copy(level, out, entries.drop_last());
        copying_is_one_copy(level, out, entries.last());
        assert forall|i: int| 0 <= i < (front + last).len() implies belongs_to_copying(
            #[trigger] (front + last)[i],
        ) by {
            if i < front.len() {
                assert((front + last)[i] == front[i]);
            } else {
                assert((front + last)[i] == last[i - front.len()]);
            }
        }
    }
}

proof fn filter_of_four(
    a: Seq<ActionView>,
    b: Seq<ActionView>,
    c: Seq<ActionView>,
    d: Seq<ActionView>,
    keep: spec_fn(ActionView) -> bool,
)
    ensures
        (a + b + c + d).filter(keep) == a.filter(keep) + b.filter(keep) + c.filter(keep)
            + d.filter(keep),
{
    Seq::filter_distributes_over_add(a, b, keep);
    Seq::filter_distributes_over_add(a + b, c, keep);
    Seq::filter_distributes_over_add(a + b + c, d, keep);
}

proof fn closing_has_no_copy(level: VerboseLevel, out: Seq<char>, tar: bool)
    ensures
        ({
            let closing = if tar {
                archiving(level, out)
            } else {
                Seq::empty()
            };
            &&& closing.filter(is_copy()) == Seq::<ActionView>::empty()
            &&& closing.filter(makes_directory()) == Seq::<ActionView>::empty()
        }),
{
    filter_of_none(is_copy());
    filter_of_none(makes_directory());
    if tar {
        let line = said(traced(level, archiving_line()));
        let packing = seq![archive_step(out)];
        let removing = seq![ActionView::RemoveDirAll(out)];
        filter_of_said(traced(level, archiving_line()));
        filter_of_one(archive_step(out), is_copy());
        filter_of_one(archive_step(out), makes_directory());
        filter_of_one(ActionView::RemoveDirAll(out), is_copy());
        filter_of_one(ActionView::RemoveDirAll(out), makes_directory());
        assert(archiving(level, out) == line + packing + removing);
        Seq::filter_distributes_over_add(line, packing, is_copy());
        Seq::filter_distributes_over_add(line + packing, removing, is_copy());
        Seq::filter_distributes_over_add(line, packing, makes_directory());
        Seq::filter_distributes_over_add(line + packing, removing, makes_directory());
    }
}

/// A backup makes one new directory, the output directory, and puts a copy
/// of every entry into it: the plan holds exactly one step that makes a new
/// directory, and its copies are those of the entries, one for each and in
/// their order.
pub proof fn backup_copies_every_entry(
    entries: Seq<EntryView>,
    level: VerboseLevel,
    out: Seq<char>,
    tar: bool,
)
    ensures
        plan_of(entries, level, out, false, tar).filter(makes_directory()) == seq![
            ActionView::CreateDir(out),
        ],
        plan_of(entries, level, out, false, tar).filter(is_copy()) == copy_steps(out, entries),
{
    let opening = said(noted(level, backup_header()));
    let making = seq![ActionView::CreateDir(out)];
    let copying = copies(level, out, entries);
    let closing = if tar {
        archiving(level, out)
    } else {
        Seq::empty()
    };
    assert(plan_of(entries, level, out, false, tar) == opening + making + copying + closing);
    filter_of_said(noted(level, backup_header()));
    filter_of_one(ActionView::CreateDir(out), is_copy());
    filter_of_one(ActionView::CreateDir(out), makes_directory());
    copies_are_copies(level, out, entries);
    closing_has_no_copy(level, out, tar);
    filter_of_four(opening, making, copying, closing, is_copy());
    filter_of_four(opening, making, copying, closing, makes_directory());
}

/// Each copy takes the entry at its path as it was given, character for
/// character, and puts it in the output directory or below it, under the
/// entry's own base name; a directory is copied with all that is in it, a
/// file alone.
pub proof fn copies_keep_their_paths(out: Seq<char>, entries: Seq<EntryView>)
    ensures
        copy_steps(out, entries).len() == entries.len(),
        forall|i: int|
            0 <= i < entries.len() ==> {
                let copy = #[trigger] copy_steps(out, entries)[i];
                &&& copy is Copy
                &&& copy->from == entries[i].source_path
                &&& copy->to == landing_of(out, entries[i].source_path)
                &&& out.is_prefix_of(copy->to)
                &&& base_name(entries[i].source_path).is_suffix_of(copy->to)
                &&& copy->recursive == (entries[i].kind == EntryKind::Directory)
            },
{
    assert forall|i: int| 0 <= i < entries.len() implies {
        let copy = #[trigger] copy_steps(out, entries)[i];
        &&& copy is Copy
        &&& copy->from == entries[i].source_path
        &&& copy->to == landing_of(out, entries[i].source_path)
        &&& out.is_prefix_of(copy->to)
        &&& base_name(entries[i].source_path).is_suffix_of(copy->to)
        &&& copy->recursive == (entries[i].kind == EntryKind::Directory)
    } by {
        landing_lies_below(out, entries[i].source_path);
    }
}

proof fn landing_lies_below(out: Seq<char>, source: Seq<char>)
    ensures
        out.is_prefix_of(landing_of(out, source)),
        base_name(source).is_suffix_of(landing_of(out, source)),
{
    landing_keeps_the_name(out, source);
    if crate::path::names(source).len() == 0 {
        let copy = landing_of(out, source);
        assert(copy.subrange(copy.len() as int, copy.len() as int) == Seq::<char>::empty());
    }
}

/// The place of the step that makes the output directory in the plan of a
/// backup: behind the header line, where that is shown.
pub open spec fn creation_index(level: VerboseLevel) -> int {
    said(noted(level, backup_header())).len() as int
}

/// A backup makes the output directory before it touches anything else:
/// that step is in the plan, nothing but the header line stands before it,
/// and every other step that acts on the disk comes after it.
pub proof fn output_directory_comes_first(
    entries: Seq<EntryView>,
    level: VerboseLevel,
    out: Seq<char>,
    tar: bool,
)
    ensures
        ({
            let plan = plan_of(entries, level, out, false, tar);
            let at = creation_index(level);
            &&& 0 <= at < plan.len()
            &&& plan[at] == ActionView::CreateDir(out)
            &&& forall|i: int| 0 <= i < at ==> #[trigger] plan[i] is Print
        }),
{
}

/// Compression ends a backup with the archive and then the removal of the
/// output directory: these are the last two steps of the plan, in this
/// order, and no step before them packs or removes anything. The archive
/// is named after the output directory, with `.tar.xz` behind its name.
/// Without compression the plan neither packs nor removes.
pub proof fn archive_comes_last(
    entries: Seq<EntryView>,
    level: VerboseLevel,
    out: Seq<char>,
    tar: bool,
)
    ensures
        ({
            let plan = plan_of(entries, level, out, false, tar);
            let rest = if tar {
                plan.len() - 2
            } else {
                plan.len() as int
            };
            &&& tar ==> {
                &&& plan.len() >= 3
                &&& plan[plan.len() - 2] == archive_step(out)
                &&& plan[plan.len() - 1] == ActionView::RemoveDirAll(out)
                &&& archive_step(out)->archive == crate::path::trimmed(out) + ".tar.xz"@
            }
            &&& forall|i: int|
                0 <= i < rest ==> !(#[trigger] plan[i] is Archive) && !(plan[i] is RemoveDirAll)
        }),
{
    reveal_strlit(".tar.xz");
    assert(".tar.xz"@ == crate::path::archive_suffix());
    copies_only_copy(level, out, entries);
    let plan = plan_of(entries, level, out, false, tar);
    let opening = said(noted(level, backup_header())) + seq![ActionView::CreateDir(out)];
    let copying = copies(level, out, entries);
    let rest = if tar {
        plan.len() - 2
    } else {
        plan.len() as int
    };
    assert forall|i: int| 0 <= i < rest implies !(#[trigger] plan[i] is Archive) && !(
    plan[i] is RemoveDirAll) by {
        if i >= opening.len() && i < opening.len() + copying.len() {
            assert(plan[i] == copying[i - opening.len()]);
            assert(belongs_to_copying(copying[i - opening.len()]));
        }
    }
}

} // verus!
