//! Which of the requested paths can be backed up. What is on the disk is
//! not looked up here: the caller says what it saw, in a `Survey`, and the
//! rules are applied to that.

use crate::util::{not_found, ErrorView, FatalError};
use vstd::prelude::*;

verus! {

/// What a look at a path found.
#[derive(Debug, Clone, Copy, PartialEq, Eq)]
pub enum PathKind {
    /// A regular file.
    File,
    /// A directory.
    Directory,
    /// Nothing that can be backed up: no entry, or one that is neither a
    /// file nor a directory.
    Missing,
}

/// What a path is, from the two questions that can be asked of it. A
/// regular file is a file; anything else that is a directory is a
/// directory; what is neither cannot be backed up and counts as missing.
pub open spec fn classified(is_file: bool, is_dir: bool) -> PathKind {
    if is_file {
        PathKind::File
    } else if is_dir {
        PathKind::Directory
    } else {
        PathKind::Missing
    }
}

impl PathKind {
    /// What a path is, given whether it is a regular file and whether it is
    /// a directory.
    pub fn classify(is_file: bool, is_dir: bool) -> (kind: PathKind)
        ensures
            kind == classified(is_file, is_dir),
    {
        if is_file {
            PathKind::File
        } else if is_dir {
            PathKind::Directory
        } else {
            PathKind::Missing
        }
    }
}

/// One look at one path.
#[derive(Debug, Clone, PartialEq, Eq)]
pub struct Sighting {
    pub path: String,
    pub kind: PathKind,
}

/// What the sightings say together; a later one replaces an earlier one of
/// the same path.
pub open spec fn gathered(sightings: Seq<Sighting>) -> Map<Seq<char>, PathKind>
    decreases sightings.len(),
{
    if sightings.len() == 0 {
        Map::empty()
    } else {
        gathered(sightings.drop_last()).insert(sightings.last().path@, sightings.last().kind)
    }
}

/// What `found` says of `path`; a path that was never looked at counts as
/// missing.
pub open spec fn kind_in(found: Map<Seq<char>, PathKind>, path: Seq<char>) -> PathKind {
    if found.dom().contains(path) {
        found[path]
    } else {
        PathKind::Missing
    }
}

/// The paths that the caller looked at, and what each of them is.
#[derive(Debug, Clone, PartialEq, Eq)]
pub struct Survey {
    sightings: Vec<Sighting>,
}

impl View for Survey {
    type V = Map<Seq<char>, PathKind>;

    closed spec fn view(&self) -> Map<Seq<char>, PathKind> {
        gathered(self.sightings@)
    }
}

impl Survey {
    /// A survey of nothing.
    pub fn new() -> (survey: Survey)
        ensures
            survey@ == Map::<Seq<char>, PathKind>::empty(),
    {
        Survey { sightings: Vec::new() }
    }

    /// Notes that `path` was found to be `kind`.
    pub fn record(&mut self, path: &str, kind: PathKind)
        ensures
            final(self)@ == old(self)@.insert(path@, kind),
    {
        let ghost before = self.sightings@;
        self.sightings.push(Sighting { path: path.to_owned(), kind });
        assert(self.sightings@.drop_last() == before);
    }

    /// What the survey says of `path`.
    pub fn kind_of(&self, path: &str) -> (kind: PathKind)
        ensures
            kind == kind_in(self@, path@),
    {
        let wanted = path.to_owned();
        let mut i: usize = self.sightings.len();
        assert(self.sightings@.take(i as int) == self.sightings@);
        while i > 0
            invariant
                i <= self.sightings.len(),
                wanted@ == path@,
                kind_in(gathered(self.sightings@.take(i as int)), path@) == kind_in(self@, path@),
            decreases i,
        {
            assert(self.sightings@.take(i as int).drop_last() == self.sightings@.take(i - 1));
            if self.sightings[i - 1].path == wanted {
                return self.sightings[i - 1].kind;
            }
            i -= 1;
        }
        PathKind::Missing
    }
}

/// What an entry of a backup is.
#[derive(Debug, Clone, Copy, PartialEq, Eq)]
pub enum EntryKind {
    File,
    Directory,
}

/// A path that was found to exist, with what it is. A backup is made of
/// these and of nothing else.
#[derive(Debug, Clone, PartialEq, Eq)]
pub struct ValidatedEntry {
    pub source_path: String,
    pub kind: EntryKind,
}

/// A `ValidatedEntry` as contracts see it.
pub struct EntryView {
    pub source_path: Seq<char>,
    pub kind: EntryKind,
}

impl View for ValidatedEntry {
    type V = EntryView;

    open spec fn view(&self) -> EntryView {
        EntryView { source_path: self.source_path@, kind: self.kind }
    }
}

impl DeepView for ValidatedEntry {
    type V = EntryView;

    open spec fn deep_view(&self) -> EntryView {
        self@
    }
}

/// The outcome of checking `candidates` against `found`, in their order:
/// the first candidate that is missing ends the check with the error that
/// names it; where none is missing, each candidate becomes an entry of its
/// kind.
pub open spec fn checked(candidates: Seq<Seq<char>>, found: Map<Seq<char>, PathKind>) -> Result<
    Seq<EntryView>,
    ErrorView,
>
    decreases candidates.len(),
{
    if candidates.len() == 0 {
        Ok(Seq::empty())
    } else {
        match checked(candidates.drop_last(), found) {
            Err(error) => Err(error),
            Ok(entries) => match kind_in(found, candidates.last()) {
                PathKind::File => Ok(
                    entries.push(
                        EntryView { source_path: candidates.last(), kind: EntryKind::File },
                    ),
                ),
                PathKind::Directory => Ok(
                    entries.push(
                        EntryView { source_path: candidates.last(), kind: EntryKind::Directory },
                    ),
                ),
                PathKind::Missing => Err(not_found(candidates.last())),
            },
        }
    }
}

/// The outcome of a validation as contracts see it.
pub open spec fn outcome_view(outcome: Result<Vec<ValidatedEntry>, FatalError>) -> Result<
    Seq<EntryView>,
    ErrorView,
> {
    match outcome {
        Ok(entries) => Ok(entries.deep_view()),
        Err(error) => Err(error@),
    }
}

/// Checks the candidates in their order against what was found. Either
/// every candidate exists and the entries are returned, one for each and in
/// the same order, or the first one that is missing is reported and nothing
/// else is returned.
pub fn validate(candidates: &Vec<String>, found: &Survey) -> (outcome: Result<
    Vec<ValidatedEntry>,
    FatalError,
>)
    ensures
        outcome_view(outcome) == checked(candidates.deep_view(), found@),
{
    let mut entries: Vec<ValidatedEntry> = Vec::new();
    let mut i: usize = 0;
    assert(candidates.deep_view().take(0) == Seq::<Seq<char>>::empty());
    assert(entries.deep_view() == Seq::<EntryView>::empty());
    while i < candidates.len()
        invariant
            i <= candidates.len(),
            checked(candidates.deep_view().take(i as int), found@) == Ok::<
                Seq<EntryView>,
                ErrorView,
            >(entries.deep_view()),
        decreases candidates.len() - i,
    {
        let path = candidates[i].as_str();
        proof {
            let next = candidates.deep_view().take(i + 1);
            assert(next.drop_last() == candidates.deep_view().take(i as int));
            assert(next.last() == path@);
        }
        let ghost before = entries.deep_view();
        match found.kind_of(path) {
            PathKind::File => {
                entries.push(ValidatedEntry { source_path: path.to_owned(), kind: EntryKind::File });
                assert(entries.deep_view() == before.push(
                    EntryView { source_path: path@, kind: EntryKind::File },
                ));
            },
            PathKind::Directory => {
                entries.push(
                    ValidatedEntry { source_path: path.to_owned(), kind: EntryKind::Directory },
                );
                assert(entries.deep_view() == before.push(
                    EntryView { source_path: path@, kind: EntryKind::Directory },
                ));
            },
            PathKind::Missing => {
                proof {
                    still_failing(candidates.deep_view(), found@, i + 1);
                }
                return Err(FatalError::file_not_found(path));
            },
        }
        i += 1;
    }
    assert(candidates.deep_view().take(candidates.len() as int) == candidates.deep_view());
    Ok(entries)
}

/// A check that has failed on the first `n` candidates fails in the same
/// way on all of them.
pub proof fn still_failing(candidates: Seq<Seq<char>>, found: Map<Seq<char>, PathKind>, n: int)
    requires
        0 <= n <= candidates.len(),
        checked(candidates.take(n), found) is Err,
    ensures
        checked(candidates, found) == checked(candidates.take(n), found),
    decreases candidates.len() - n,
{
    if n < candidates.len() {
        let next = candidates.take(n + 1);
        assert(next.drop_last() == candidates.take(n));
        still_failing(candidates, found, n + 1);
    } else {
        assert(candidates.take(n) == candidates);
    }
}

/// The kind of entry that a sighting of a file or a directory gives.
pub open spec fn entry_kind(kind: PathKind) -> EntryKind {
    match kind {
        PathKind::Directory => EntryKind::Directory,
        _ => EntryKind::File,
    }
}

/// A check succeeds exactly when no candidate is missing. It then gives one
/// entry for each candidate, in the same order, with the candidate's path
/// unchanged and the kind that was found. Otherwise its error names the
/// first candidate that is missing.
pub proof fn checked_is_exact(candidates: Seq<Seq<char>>, found: Map<Seq<char>, PathKind>)
    ensures
        checked(candidates, found) is Ok <==> forall|i: int|
            0 <= i < candidates.len() ==> kind_in(found, #[trigger] candidates[i])
                != PathKind::Missing,
        checked(candidates, found) matches Ok(entries) ==> {
            &&& entries.len() == candidates.len()
            &&& forall|i: int|
                0 <= i < entries.len() ==> {
                    &&& (#[trigger] entries[i]).source_path == candidates[i]
                    &&& entries[i].kind == entry_kind(kind_in(found, candidates[i]))
                }
        },
        checked(candidates, found) matches Err(error) ==> exists|i: int|
            {
                &&& 0 <= i < candidates.len()
                &&& kind_in(found, #[trigger] candidates[i]) == PathKind::Missing
                &&& error == not_found(candidates[i])
                &&& forall|j: int|
                    0 <= j < i ==> kind_in(found, #[trigger] candidates[j]) != PathKind::Missing
            },
    decreases candidates.len(),
{
    if candidates.len() > 0 {
        let front = candidates.drop_last();
        checked_is_exact(front, found);
        match checked(front, found) {
            Err(error) => {
                let i = choose|i: int|
                    {
                        &&& 0 <= i < front.len()
                        &&& kind_in(found, #[trigger] front[i]) == PathKind::Missing
                        &&& error == not_found(front[i])
                        &&& forall|j: int|
                            0 <= j < i ==> kind_in(found, #[trigger] front[j]) != PathKind::Missing
                    };
                assert(candidates[i] == front[i]);
                assert forall|j: int| 0 <= j < i implies kind_in(found, #[trigger] candidates[j])
                    != PathKind::Missing by {
                    assert(candidates[j] == front[j]);
                }
            },
            Ok(entries) => {
                assert forall|j: int| 0 <= j < front.len() implies kind_in(
                    found,
                    #[trigger] candidates[j],
                ) != PathKind::Missing by {
                    assert(candidates[j] == front[j]);
                }
                if kind_in(found, candidates.last()) == PathKind::Missing {
                    let i: int = candidates.len() - 1;
                    assert(kind_in(found, candidates[i]) == PathKind::Missing);
                } else {
                    let all = checked(candidates, found)->Ok_0;
                    assert forall|i: int| 0 <= i < all.len() implies {
                        &&& (#[trigger] all[i]).source_path == candidates[i]
                        &&& all[i].kind == entry_kind(kind_in(found, candidates[i]))
                    } by {
                        if i < entries.len() {
                            assert(all[i] == entries[i]);
                            assert(candidates[i] == front[i]);
                        }
                    }
                }
            },
        }
    }
}

/// Checking one list after another is checking the two in a row: the first
/// failure decides, and where there is none the entries of the second list
/// follow those of the first.
pub proof fn checked_in_turn(
    first: Seq<Seq<char>>,
    second: Seq<Seq<char>>,
    found: Map<Seq<char>, PathKind>,
)
    ensures
        checked(first + second, found) == match checked(first, found) {
            Err(error) => Err::<Seq<EntryView>, ErrorView>(error),
            Ok(entries) => match checked(second, found) {
                Err(error) => Err(error),
                Ok(more) => Ok(entries + more),
            },
        },
    decreases second.len(),
{
    if second.len() == 0 {
        assert(first + second == first);
        if let Ok(entries) = checked(first, found) {
            assert(entries + Seq::<EntryView>::empty() == entries);
        }
    } else {
        let all = first + second;
        assert(all.drop_last() == first + second.drop_last());
        assert(all.last() == second.last());
        checked_in_turn(first, second.drop_last(), found);
        if let Ok(entries) = checked(first, found) {
            if let Ok(more) = checked(second.drop_last(), found) {
                let kind = entry_kind(kind_in(found, second.last()));
                let entry = EntryView { source_path: second.last(), kind };
                assert((entries + more).push(entry) == entries + more.push(entry));
            }
        }
    }
}

} // verus!
