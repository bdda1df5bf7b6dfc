//! The options of a run: which combinations are acceptable, what they say
//! about output and destination, and which paths they ask to back up.

use crate::manifest::{entries, entries_of, Manifest, ManifestView};
use crate::util::{
    io_failure, misuse, not_found, ErrorKind, ErrorView, FatalError, VerboseLevel, VerbosePrint,
};
use crate::validate::{
    checked, checked_in_turn, checked_is_exact, kind_in, outcome_view, validate, EntryView,
    PathKind, Survey, ValidatedEntry,
};
use vstd::prelude::*;

verus! {

/// The options as contracts see them.
pub struct OptView {
    pub out: Option<Seq<char>>,
    pub dry_run: bool,
    pub quiet: bool,
    pub verbose: bool,
    pub file: Option<Seq<char>>,
    pub list: Seq<Seq<char>>,
    pub tar: bool,
}

/// Options can be used unless they ask for silence and for detail at once,
/// or name neither a manifest nor a single path.
pub open spec fn acceptable(given: OptView) -> bool {
    &&& !(given.quiet && given.verbose)
    &&& (given.file is Some || given.list.len() > 0)
}

/// What is said of options that cannot be used.
pub open spec fn complaint_about(given: OptView) -> Seq<char> {
    if given.quiet && given.verbose {
        "Error: --quiet and --verbose cannot be used together"@
    } else {
        "Error: nothing to back up, give --file or --list"@
    }
}

/// The level of output that the options ask for.
pub open spec fn level_of(given: OptView) -> VerboseLevel {
    if given.quiet {
        VerboseLevel::Off
    } else if given.verbose {
        VerboseLevel::On
    } else {
        VerboseLevel::Reg
    }
}

/// The outcome of validating the paths that the options name, given what
/// came of reading the manifest and what was found on the disk. The listed
/// paths are checked first. Where a manifest is named, it is turned to
/// next: one that is missing or cannot be read ends the validation, and
/// otherwise the paths that it names are checked. The first path that is
/// missing ends the validation. Where no manifest is named, what was read
/// plays no part.
pub open spec fn validated(
    given: OptView,
    manifest: ManifestView,
    found: Map<Seq<char>, PathKind>,
) -> Result<Seq<EntryView>, ErrorView> {
    match checked(given.list, found) {
        Err(error) => Err(error),
        Ok(listed) => match given.file {
            None => Ok(listed),
            Some(file) => match manifest {
                ManifestView::Missing => Err(not_found(file)),
                ManifestView::Unreadable(cause) => Err(io_failure(cause)),
                ManifestView::Text(text) => match checked(entries_of(text), found) {
                    Err(error) => Err(error),
                    Ok(more) => Ok(listed + more),
                },
            },
        },
    }
}

/// A day of the calendar.
#[derive(Debug, Clone, Copy, PartialEq, Eq)]
pub struct Date {
    pub year: u16,
    pub month: u8,
    pub day: u8,
}

/// The ten digits.
pub open spec fn digits() -> Seq<char> {
    "0123456789"@
}

/// `n` in decimal, with zeros in front where it has fewer than `width`
/// digits.
pub open spec fn decimal(n: nat, width: nat) -> Seq<char>
    decreases n, width,
{
    if n < 10 && width <= 1 {
        seq![digits()[n as int]]
    } else if width == 0 {
        decimal(n / 10, 0).push(digits()[(n % 10) as int])
    } else {
        decimal(n / 10, (width - 1) as nat).push(digits()[(n % 10) as int])
    }
}

/// A date as it stands in a file name: year, month and day, of four, two
/// and two digits, with `_` between them.
pub open spec fn stamp_of(date: Date) -> Seq<char> {
    decimal(date.year as nat, 4).push('_') + decimal(date.month as nat, 2).push('_') + decimal(
        date.day as nat,
        2,
    )
}

/// What the name of an output directory begins with when none was asked
/// for.
pub open spec fn default_prefix() -> Seq<char> {
    "confbk_backup_"@
}

/// The output directory of a run on the day `today`: the one that was asked
/// for, or else the default prefix followed by the date.
pub open spec fn output_of(given: OptView, today: Date) -> Seq<char> {
    match given.out {
        Some(out) => out,
        None => default_prefix() + stamp_of(today),
    }
}

fn write_decimal(text: &mut String, n: u16, width: u8)
    ensures
        final(text)@ == old(text)@ + decimal(n as nat, width as nat),
    decreases n, width,
{
    proof {
        reveal_strlit("0123456789");
    }
    if n < 10 && width <= 1 {
        text.push("0123456789".get_char(n as usize));
        assert(text@ == old(text)@ + seq![digits()[n as int]]);
    } else {
        let less: u8 = if width > 0 {
            width - 1
        } else {
            0
        };
        write_decimal(text, n / 10, less);
        text.push("0123456789".get_char((n % 10) as usize));
        assert(text@ == old(text)@ + decimal(n as nat / 10, less as nat).push(
            digits()[(n % 10) as int],
        ));
    }
}

impl Date {
    /// The date as it stands in a file name, such as `2024_02_29`.
    pub fn stamp(&self) -> (text: String)
        ensures
            text@ == stamp_of(*self),
    {
        let mut text = String::new();
        write_decimal(&mut text, self.year, 4);
        text.push('_');
        write_decimal(&mut text, self.month as u16, 2);
        text.push('_');
        write_decimal(&mut text, self.day as u16, 2);
        assert(text@ == stamp_of(*self));
        text
    }
}

/// The options of one run. They are checked when they are made and do not
/// change afterwards.
#[derive(Debug, PartialEq, Eq)]
pub struct Opt {
    out: Option<String>,
    dry_run: bool,
    quiet: bool,
    verbose: bool,
    file: Option<String>,
    list: Vec<String>,
    tar: bool,
}

impl View for Opt {
    type V = OptView;

    closed spec fn view(&self) -> OptView {
        OptView {
            out: self.out.deep_view(),
            dry_run: self.dry_run,
            quiet: self.quiet,
            verbose: self.verbose,
            file: self.file.deep_view(),
            list: self.list.deep_view(),
            tar: self.tar,
        }
    }
}

impl Opt {
    #[verifier::type_invariant]
    spec fn usable(self) -> bool {
        acceptable(self@)
    }

    /// Makes the options of a run from what the user gave: the directory to
    /// put the backup in, whether only to list what would be backed up,
    /// whether to be silent, whether to give details, a manifest, a list of
    /// paths, and whether to compress. Options that are not acceptable are
    /// refused with a usage error; silence together with detail is refused
    /// whatever else is given.
    pub fn new(
        out: Option<String>,
        dry_run: bool,
        quiet: bool,
        verbose: bool,
        file: Option<String>,
        list: Vec<String>,
        tar: bool,
    ) -> (made: Result<Opt, FatalError>)
        ensures
            ({
                let given = OptView {
                    out: out.deep_view(),
                    dry_run,
                    quiet,
                    verbose,
                    file: file.deep_view(),
                    list: list.deep_view(),
                    tar,
                };
                match made {
                    Ok(opt) => acceptable(given) && opt@ == given,
                    Err(error) => !acceptable(given) && error@ == misuse(complaint_about(given)),
                }
            }),
            quiet && verbose ==> made is Err && made->Err_0@.kind == ErrorKind::Usage,
    {
        if quiet && verbose {
            Err(FatalError::usage("Error: --quiet and --verbose cannot be used together"))
        } else if file.is_none() && list.len() == 0 {
            Err(FatalError::usage("Error: nothing to back up, give --file or --list"))
        } else {
            Ok(Opt { out, dry_run, quiet, verbose, file, list, tar })
        }
    }

    /// The directory that was asked for, if one was.
    pub fn out(&self) -> (out: &Option<String>)
        ensures
            out.deep_view() == self@.out,
    {
        &self.out
    }

    /// Whether the run only lists what it would back up.
    pub fn dry_run(&self) -> (dry_run: bool)
        ensures
            dry_run == self@.dry_run,
    {
        self.dry_run
    }

    /// Whether the run is silent. A silent run gives no details.
    pub fn quiet(&self) -> (quiet: bool)
        ensures
            quiet == self@.quiet,
            quiet ==> !self@.verbose,
    {
        proof {
            use_type_invariant(self);
        }
        self.quiet
    }

    /// Whether the run gives details. Such a run is not silent.
    pub fn verbose(&self) -> (verbose: bool)
        ensures
            verbose == self@.verbose,
            verbose ==> !self@.quiet,
    {
        proof {
            use_type_invariant(self);
        }
        self.verbose
    }

    /// Whether the backup is compressed into an archive.
    pub fn tar(&self) -> (tar: bool)
        ensures
            tar == self@.tar,
    {
        self.tar
    }

    /// The manifest that names paths to back up, if one was given.
    pub fn file(&self) -> (file: &Option<String>)
        ensures
            file.deep_view() == self@.file,
            file is None ==> self@.list.len() > 0,
    {
        proof {
            use_type_invariant(self);
        }
        &self.file
    }

    /// The paths that were given one by one.
    pub fn list(&self) -> (list: &Vec<String>)
        ensures
            list.deep_view() == self@.list,
    {
        &self.list
    }

    /// How the run speaks: not at all where it is silent, with details
    /// where they were asked for, and plainly otherwise.
    pub fn print(&self) -> (print: VerbosePrint)
        ensures
            print.level == level_of(self@),
            print.level == VerboseLevel::Off <==> self@.quiet,
            print.level == VerboseLevel::On <==> self@.verbose,
    {
        proof {
            use_type_invariant(self);
        }
        if self.quiet {
            VerbosePrint { level: VerboseLevel::Off }
        } else if self.verbose {
            VerbosePrint { level: VerboseLevel::On }
        } else {
            VerbosePrint { level: VerboseLevel::Reg }
        }
    }

    /// The output directory of a run on the day `today`.
    pub fn output_path(&self, today: &Date) -> (path: String)
        ensures
            path@ == output_of(self@, *today),
    {
        match &self.out {
            Some(out) => out.clone(),
            None => {
                let mut path = "confbk_backup_".to_owned();
                let stamp = today.stamp();
                path.append(stamp.as_str());
                path
            },
        }
    }

    /// Validates the paths to back up. `manifest` says what came of reading
    /// the manifest, `found` what each path is. The listed paths come
    /// first, then those of the manifest. Either all of them exist and
    /// their entries are returned in that order, or the first thing that is
    /// wrong is reported, and no entry at all: a path that is missing, or
    /// the manifest where it is missing or cannot be read.
    pub fn validate_paths(&self, manifest: &Manifest, found: &Survey) -> (outcome: Result<
        Vec<ValidatedEntry>,
        FatalError,
    >)
        ensures
            outcome_view(outcome) == validated(self@, manifest@, found@),
    {
        let mut listed = match validate(&self.list, found) {
            Err(error) => {
                return Err(error);
            },
            Ok(listed) => listed,
        };
        match &self.file {
            None => Ok(listed),
            Some(file) => match manifest {
                Manifest::Missing => Err(FatalError::file_not_found(file.as_str())),
                Manifest::Unreadable(cause) => Err(FatalError::error(cause.as_str())),
                Manifest::Text(text) => {
                    let named = entries(text.as_str());
                    match validate(&named, found) {
                        Err(error) => Err(error),
                        Ok(mut more) => {
                            let ghost first = listed.deep_view();
                            let ghost second = more.deep_view();
                            listed.append(&mut more);
                            assert(listed.deep_view() == first + second);
                            Ok(listed)
                        },
                    }
                },
            },
        }
    }
}

/// Whether none of `paths` is missing.
pub open spec fn all_there(paths: Seq<Seq<char>>, found: Map<Seq<char>, PathKind>) -> bool {
    forall|i: int| 0 <= i < paths.len() ==> kind_in(found, #[trigger] paths[i]) != PathKind::Missing
}

/// Where a manifest and a list are given together, their paths are
/// validated as one row, the listed paths first: the entries of the
/// manifest follow those of the list, and nothing is left out.
pub proof fn manifest_follows_list(
    given: OptView,
    text: Seq<char>,
    found: Map<Seq<char>, PathKind>,
)
    requires
        given.file is Some,
    ensures
        validated(given, ManifestView::Text(text), found) == checked(
            given.list + entries_of(text),
            found,
        ),
{
    checked_in_turn(given.list, entries_of(text), found);
}

/// A validation succeeds exactly when nothing is missing: none of the
/// listed paths and, where a manifest is named, neither the manifest, which
/// was read, nor any of the paths that it names. A run that names a missing
/// path has no entries to back up, and so no plan. Every failure is a
/// missing path, but for a manifest that could not be read.
pub proof fn validation_is_exact(
    given: OptView,
    manifest: ManifestView,
    found: Map<Seq<char>, PathKind>,
)
    ensures
        validated(given, manifest, found) is Ok <==> {
            &&& all_there(given.list, found)
            &&& given.file is Some ==> manifest is Text && all_there(
                entries_of(manifest->Text_0),
                found,
            )
        },
        validated(given, manifest, found) matches Err(error) ==> {
            ||| error.kind == ErrorKind::NotFound
            ||| manifest matches ManifestView::Unreadable(cause) && error == io_failure(cause)
        },
{
    checked_is_exact(given.list, found);
    if let ManifestView::Text(text) = manifest {
        checked_is_exact(entries_of(text), found);
    }
}

} // verus!
