//! The parts of the library one by one, on values chosen by hand.

use confbk::args::{Date, Opt};
use confbk::manifest::{entries, Manifest};
use confbk::path::{archive_member, archive_name, archive_root, destination, is_nested, landing};
use confbk::plan::Action;
use confbk::run::{conclude, BackupResult, Outcome, Run};
use confbk::text::{chars_of, split_chars, text_of};
use confbk::util::{
    all_paths, backup, DirContent, ErrorKind, FatalError, VerboseLevel, VerbosePrint,
};
use confbk::validate::{validate, EntryKind, PathKind, Survey, ValidatedEntry};

fn strings(items: &[&str]) -> Vec<String> {
    items.iter().map(|s| s.to_string()).collect()
}

fn entry(path: &str, kind: EntryKind) -> ValidatedEntry {
    ValidatedEntry { source_path: path.to_string(), kind }
}

fn print(level: VerboseLevel) -> VerbosePrint {
    VerbosePrint { level }
}

fn pieces(text: &str, sep: char) -> Vec<String> {
    split_chars(&chars_of(text), sep).iter().map(|p| p.iter().collect()).collect()
}

fn text(text: &str) -> Manifest {
    Manifest::Text(text.to_string())
}

fn options(quiet: bool, verbose: bool, file: Option<&str>, list: &[&str]) -> Result<Opt, FatalError> {
    Opt::new(None, false, quiet, verbose, file.map(|s| s.to_string()), strings(list), false)
}

#[test]
fn chars_round_trip() {
    let chars = chars_of("a\u{00D8}\u{1F600}z");
    assert_eq!(chars, vec!['a', '\u{00D8}', '\u{1F600}', 'z']);
    assert_eq!(text_of(&chars), "a\u{00D8}\u{1F600}z");
    assert_eq!(text_of(&vec!['\u{00D8}']), "\u{00D8}");
    assert_eq!(text_of(&vec![]), "");
    assert_eq!(chars_of(""), Vec::<char>::new());
}

#[test]
fn split_gives_every_piece() {
    assert_eq!(pieces("", '/'), strings(&[""]));
    assert_eq!(pieces("abc", '/'), strings(&["abc"]));
    assert_eq!(pieces("a/b", '/'), strings(&["a", "b"]));
    assert_eq!(pieces("/a//b/", '/'), strings(&["", "a", "", "b", ""]));
    assert_eq!(pieces("///", '/'), strings(&["", "", "", ""]));
}

#[test]
fn split_then_join_is_the_text() {
    for text in ["", "a", "a\nb", "\n\nx\n", "no newline", "\u{00D8}\n\u{00FB}"] {
        assert_eq!(pieces(text, '\n').join("\n"), text);
        assert!(pieces(text, '\n').iter().all(|p| !p.contains('\n')));
    }
}

#[test]
fn manifest_lines_in_order() {
    assert_eq!(entries("backMeUp1\nbackMeUp2\n"), strings(&["backMeUp1", "backMeUp2"]));
    assert_eq!(entries("backMeUp1\nbackMeUp2"), strings(&["backMeUp1", "backMeUp2"]));
    assert_eq!(entries("IDontExist\n"), strings(&["IDontExist"]));
}

#[test]
fn manifest_skips_empty_lines() {
    assert_eq!(entries(""), Vec::<String>::new());
    assert_eq!(entries("\n\n\n"), Vec::<String>::new());
    assert_eq!(entries("\na\n\n\nb\n\n"), strings(&["a", "b"]));
    assert_eq!(entries(" \n"), strings(&[" "]));
}

#[test]
fn manifest_drops_carriage_returns_of_line_endings() {
    assert_eq!(entries("a\r\nb\r\n"), strings(&["a", "b"]));
    assert_eq!(entries("a\r\n\r\nb"), strings(&["a", "b"]));
    assert_eq!(entries("a\r\r\n"), strings(&["a\r"]));
    assert_eq!(entries("a\rb\n"), strings(&["a\rb"]));
    assert_eq!(entries("last\r"), strings(&["last\r"]));
}

#[test]
fn manifest_keeps_unicode() {
    assert_eq!(entries("\u{00D8}\u{00FB}\u{0226}\n\u{4E2D}/\u{6587}\n"), strings(&["\u{00D8}\u{00FB}\u{0226}", "\u{4E2D}/\u{6587}"]));
}

#[test]
fn bare_names_go_into_the_output_directory() {
    assert_eq!(destination("confbk_backup", "backMeUp1"), "confbk_backup");
    assert_eq!(destination("out", "./file"), "out");
    assert_eq!(destination("out", "dir/"), "out");
    assert_eq!(destination("out", ""), "out");
    assert_eq!(destination("out", "."), "out");
    assert_eq!(destination("out", ".."), "out");
    assert_eq!(destination("out", "/"), "out");
    assert!(!is_nested("backMeUp1"));
    assert!(!is_nested("./file"));
    assert!(!is_nested("dir/"));
    assert!(!is_nested(""));
    assert!(!is_nested("../.."));
}

#[test]
fn nested_sources_go_below_the_output_directory() {
    assert_eq!(destination("out", "a/b/c"), "out/a/b");
    assert_eq!(destination("out", "a/file"), "out/a");
    assert_eq!(destination("out", "a//b/./c/"), "out/a/b");
    assert_eq!(destination("out", "/etc/fstab"), "out/etc");
    assert_eq!(destination("out", "../x/file"), "out/x");
    assert_eq!(destination("out", "./.config/app/settings.toml"), "out/.config/app");
    assert_eq!(destination("out", "\u{00D8}/\u{00FB}"), "out/\u{00D8}");
    assert!(is_nested("a/b/c"));
    assert!(is_nested("/etc/fstab"));
    assert!(is_nested("../x/file"));
}

#[test]
fn destination_joins_without_doubling_separators() {
    assert_eq!(destination("out/", "a/b"), "out/a");
    assert_eq!(destination("/", "a/b"), "/a");
    assert_eq!(destination("", "a/b/c"), "a/b");
    assert_eq!(destination("some/where", "a/b/c"), "some/where/a/b");
    assert_eq!(destination("out/", "file"), "out/");
}

#[test]
fn archive_stands_beside_the_directory() {
    assert_eq!(archive_name("conf"), "conf.tar.xz");
    assert_eq!(archive_root("conf"), ".");
    assert_eq!(archive_member("conf"), "conf");

    assert_eq!(archive_name("a/b"), "a/b.tar.xz");
    assert_eq!(archive_root("a/b"), "a/");
    assert_eq!(archive_member("a/b"), "b");

    assert_eq!(archive_name("/tmp/x/backup"), "/tmp/x/backup.tar.xz");
    assert_eq!(archive_root("/tmp/x/backup"), "/tmp/x/");
    assert_eq!(archive_member("/tmp/x/backup"), "backup");

    assert_eq!(archive_name("/backup"), "/backup.tar.xz");
    assert_eq!(archive_root("/backup"), "/");
    assert_eq!(archive_member("/backup"), "backup");
}

#[test]
fn archive_ignores_trailing_separators() {
    assert_eq!(archive_name("conf/"), "conf.tar.xz");
    assert_eq!(archive_root("conf/"), ".");
    assert_eq!(archive_member("conf/"), "conf");
    assert_eq!(archive_name("a/b///"), "a/b.tar.xz");
    assert_eq!(archive_root("a/b///"), "a/");
    assert_eq!(archive_member("a/b///"), "b");
    assert_eq!(archive_name(""), ".tar.xz");
    assert_eq!(archive_member(""), "");
    assert_eq!(archive_root(""), ".");
    assert_eq!(archive_name("\u{00D8}\u{00FB}"), "\u{00D8}\u{00FB}.tar.xz");
}

#[test]
fn survey_remembers_the_last_sighting() {
    let mut found = Survey::new();
    assert_eq!(found.kind_of("a"), PathKind::Missing);
    found.record("a", PathKind::File);
    found.record("b", PathKind::Directory);
    assert_eq!(found.kind_of("a"), PathKind::File);
    assert_eq!(found.kind_of("b"), PathKind::Directory);
    assert_eq!(found.kind_of("c"), PathKind::Missing);
    assert_eq!(found.kind_of("A"), PathKind::Missing);
    found.record("a", PathKind::Directory);
    assert_eq!(found.kind_of("a"), PathKind::Directory);
    found.record("b", PathKind::Missing);
    assert_eq!(found.kind_of("b"), PathKind::Missing);
}

#[test]
fn validate_classifies_in_input_order() {
    let mut found = Survey::new();
    found.record("f", PathKind::File);
    found.record("d", PathKind::Directory);
    assert_eq!(
        validate(&strings(&["d", "f", "d"]), &found),
        Ok(vec![
            entry("d", EntryKind::Directory),
            entry("f", EntryKind::File),
            entry("d", EntryKind::Directory),
        ])
    );
    assert_eq!(validate(&strings(&[]), &found), Ok(vec![]));
}

#[test]
fn validate_fails_on_the_first_missing_path() {
    let mut found = Survey::new();
    found.record("f", PathKind::File);
    found.record("gone", PathKind::Missing);
    let outcome = validate(&strings(&["f", "gone", "never seen", "f"]), &found);
    assert_eq!(outcome, Err(FatalError::file_not_found("gone")));
    let outcome = validate(&strings(&["never seen", "gone"]), &found);
    assert_eq!(outcome, Err(FatalError { kind: ErrorKind::NotFound, subject: "never seen".to_string() }));
}

#[test]
fn options_with_quiet_and_verbose_are_refused() {
    for dry_run in [false, true] {
        for tar in [false, true] {
            for file in [None, Some("m".to_string())] {
                for list in [strings(&[]), strings(&["a"])] {
                    for out in [None, Some("o".to_string())] {
                        let made = Opt::new(out, dry_run, true, true, file.clone(), list.clone(), tar);
                        assert_eq!(
                            made,
                            Err(FatalError::usage(
                                "Error: --quiet and --verbose cannot be used together"
                            ))
                        );
                    }
                }
            }
        }
    }
}

#[test]
fn options_without_paths_are_refused() {
    let made = options(false, false, None, &[]);
    assert_eq!(made, Err(FatalError::usage("Error: nothing to back up, give --file or --list")));
    assert_eq!(made.unwrap_err().kind, ErrorKind::Usage);
    assert!(options(false, false, Some("m"), &[]).is_ok());
    assert!(options(false, false, None, &["a"]).is_ok());
    assert!(options(true, false, Some("m"), &["a"]).is_ok());
}

#[test]
fn options_give_back_what_they_were_made_of() {
    let opt = Opt::new(
        Some("o".to_string()),
        true,
        false,
        true,
        Some("m".to_string()),
        strings(&["a", "b"]),
        true,
    )
    .unwrap();
    assert_eq!(opt.out(), &Some("o".to_string()));
    assert!(opt.dry_run());
    assert!(!opt.quiet());
    assert!(opt.verbose());
    assert_eq!(opt.file(), &Some("m".to_string()));
    assert_eq!(opt.list(), &strings(&["a", "b"]));
    assert!(opt.tar());

    let opt = Opt::new(None, false, true, false, None, strings(&["a"]), false).unwrap();
    assert_eq!(opt.out(), &None);
    assert!(!opt.dry_run());
    assert!(opt.quiet());
    assert!(!opt.verbose());
    assert_eq!(opt.file(), &None);
    assert!(!opt.tar());
}

#[test]
fn options_choose_the_level_of_output() {
    assert_eq!(options(true, false, None, &["a"]).unwrap().print().level, VerboseLevel::Off);
    assert_eq!(options(false, true, None, &["a"]).unwrap().print().level, VerboseLevel::On);
    assert_eq!(options(false, false, None, &["a"]).unwrap().print().level, VerboseLevel::Reg);
}

#[test]
fn date_stamp_has_fixed_widths() {
    assert_eq!(Date { year: 2024, month: 2, day: 29 }.stamp(), "2024_02_29");
    assert_eq!(Date { year: 1999, month: 12, day: 31 }.stamp(), "1999_12_31");
    assert_eq!(Date { year: 7, month: 1, day: 1 }.stamp(), "0007_01_01");
    assert_eq!(Date { year: 0, month: 0, day: 0 }.stamp(), "0000_00_00");
    assert_eq!(Date { year: 65535, month: 255, day: 100 }.stamp(), "65535_255_100");
}

#[test]
fn output_path_defaults_to_prefix_and_date() {
    let opt = options(false, false, None, &["a"]).unwrap();
    assert_eq!(opt.output_path(&Date { year: 2026, month: 10, day: 28 }), "confbk_backup_2026_10_28");
    assert_eq!(opt.output_path(&Date { year: 2021, month: 1, day: 5 }), "confbk_backup_2021_01_05");
    let opt =
        Opt::new(Some("conf".to_string()), false, false, false, None, strings(&["a"]), false).unwrap();
    assert_eq!(opt.output_path(&Date { year: 2026, month: 10, day: 28 }), "conf");
}

#[test]
fn validate_paths_puts_the_manifest_after_the_list() {
    let mut found = Survey::new();
    for name in ["one", "two", "three"] {
        found.record(name, PathKind::File);
    }
    found.record("dir", PathKind::Directory);
    let opt = options(false, false, Some("m"), &["three", "dir"]).unwrap();
    assert_eq!(
        opt.validate_paths(&text("one\n\ntwo\n"), &found),
        Ok(vec![
            entry("three", EntryKind::File),
            entry("dir", EntryKind::Directory),
            entry("one", EntryKind::File),
            entry("two", EntryKind::File),
        ])
    );
    let opt = options(false, false, None, &["three"]).unwrap();
    assert_eq!(opt.validate_paths(&text("gone\n"), &found), Ok(vec![entry("three", EntryKind::File)]));
    assert_eq!(opt.validate_paths(&Manifest::Missing, &found), Ok(vec![entry("three", EntryKind::File)]));
}

#[test]
fn validate_paths_reports_what_is_missing_first() {
    let mut found = Survey::new();
    found.record("one", PathKind::File);
    let opt = options(false, false, Some("m"), &["one", "lost"]).unwrap();
    assert_eq!(opt.validate_paths(&Manifest::Missing, &found), Err(FatalError::file_not_found("lost")));
    assert_eq!(opt.validate_paths(&text("gone\n"), &found), Err(FatalError::file_not_found("lost")));
    let opt = options(false, false, Some("m"), &["one"]).unwrap();
    assert_eq!(opt.validate_paths(&Manifest::Missing, &found), Err(FatalError::file_not_found("m")));
    assert_eq!(
        opt.validate_paths(&text("one\ngone\nalso gone\n"), &found),
        Err(FatalError::file_not_found("gone"))
    );
    assert_eq!(opt.validate_paths(&text(""), &found), Ok(vec![entry("one", EntryKind::File)]));
}

#[test]
fn validate_paths_reports_a_manifest_that_cannot_be_read() {
    let mut found = Survey::new();
    found.record("one", PathKind::File);
    let unreadable = Manifest::Unreadable("Permission denied (os error 13)".to_string());
    let opt = options(false, false, Some("m"), &["one"]).unwrap();
    assert_eq!(
        opt.validate_paths(&unreadable, &found),
        Err(FatalError::error("Permission denied (os error 13)"))
    );
    let opt = options(false, false, Some("m"), &["lost"]).unwrap();
    assert_eq!(opt.validate_paths(&unreadable, &found), Err(FatalError::file_not_found("lost")));
    let opt = options(false, false, None, &["one"]).unwrap();
    assert_eq!(opt.validate_paths(&unreadable, &found), Ok(vec![entry("one", EntryKind::File)]));
}

#[test]
fn println_is_shown_unless_off() {
    assert_eq!(print(VerboseLevel::On).println("Backing up"), Some("Backing up".to_string()));
    assert_eq!(print(VerboseLevel::Reg).println("Backing up"), Some("Backing up".to_string()));
    assert_eq!(print(VerboseLevel::Off).println("Backing up"), None);
    assert_eq!(print(VerboseLevel::Reg).println(""), Some(String::new()));
}

#[test]
fn debug_is_shown_only_when_on() {
    assert_eq!(print(VerboseLevel::On).debug("Executing Tar"), Some("[Debug] Executing Tar".to_string()));
    assert_eq!(print(VerboseLevel::Reg).debug("Executing Tar"), None);
    assert_eq!(print(VerboseLevel::Off).debug("Executing Tar"), None);
    assert_eq!(print(VerboseLevel::On).debug(""), Some("[Debug] ".to_string()));
}

#[test]
fn errors_say_what_went_wrong() {
    let error = FatalError::file_not_found("IDontExist");
    assert_eq!(error.kind, ErrorKind::NotFound);
    assert_eq!(error.subject, "IDontExist");
    assert_eq!(error.message(), "Error: File IDontExist not found");

    let error = FatalError::error("No space left on device (os error 28)");
    assert_eq!(error.kind, ErrorKind::Io);
    assert_eq!(error.message(), "No space left on device (os error 28)");

    let error = FatalError::already_exists("confbk_backup");
    assert_eq!(error.kind, ErrorKind::Conflict);
    assert_eq!(error.message(), "Error: Directory confbk_backup already exists");

    let error = FatalError::usage("no");
    assert_eq!(error.kind, ErrorKind::Usage);
    assert_eq!(error.message(), "no");
}

#[test]
fn errors_end_the_process_with_a_failure() {
    for error in [
        FatalError::file_not_found("a"),
        FatalError::error("a"),
        FatalError::already_exists("a"),
        FatalError::usage("a"),
    ] {
        assert_eq!(error.exit_code(), 1);
        assert_eq!(error.duplicate(), error);
    }
}

#[test]
fn dry_run_plan_lists_the_entries() {
    let paths = vec![entry("a", EntryKind::File), entry("d/e", EntryKind::Directory), entry("\u{00D8}", EntryKind::File)];
    let expected = vec![
        Action::Print("Files to be backed up:".to_string()),
        Action::Print("    a".to_string()),
        Action::Print("    d/e".to_string()),
        Action::Print("    \u{00D8}".to_string()),
    ];
    for tar in [false, true] {
        assert_eq!(backup(&paths, &print(VerboseLevel::Reg), "out", true, tar), expected);
        assert_eq!(backup(&paths, &print(VerboseLevel::On), "out", true, tar), expected);
        assert_eq!(backup(&paths, &print(VerboseLevel::Off), "out", true, tar), vec![]);
    }
    assert_eq!(
        backup(&[], &print(VerboseLevel::Reg), "out", true, false),
        vec![Action::Print("Files to be backed up:".to_string())]
    );
}

#[test]
fn backup_plan_creates_then_copies() {
    let paths = vec![entry("a", EntryKind::File), entry("d", EntryKind::Directory)];
    let copies = vec![
        Action::CreateDir("out".to_string()),
        Action::Copy { from: "a".to_string(), to: "out/a".to_string(), recursive: false },
        Action::Copy { from: "d".to_string(), to: "out/d".to_string(), recursive: true },
    ];
    assert_eq!(backup(&paths, &print(VerboseLevel::Off), "out", false, false), copies);
    let mut spoken = vec![Action::Print("Backing up".to_string())];
    spoken.extend(copies);
    assert_eq!(backup(&paths, &print(VerboseLevel::Reg), "out", false, false), spoken);
    assert_eq!(
        backup(&[], &print(VerboseLevel::Reg), "out", false, false),
        vec![Action::Print("Backing up".to_string()), Action::CreateDir("out".to_string())]
    );
}

#[test]
fn backup_plan_makes_directories_for_nested_sources() {
    let paths = vec![entry("etc/app/conf", EntryKind::File), entry("top", EntryKind::File)];
    assert_eq!(
        backup(&paths, &print(VerboseLevel::Reg), "out", false, false),
        vec![
            Action::Print("Backing up".to_string()),
            Action::CreateDir("out".to_string()),
            Action::CreateDirAll("out/etc/app".to_string()),
            Action::Copy {
                from: "etc/app/conf".to_string(),
                to: "out/etc/app/conf".to_string(),
                recursive: false,
            },
            Action::Copy { from: "top".to_string(), to: "out/top".to_string(), recursive: false },
        ]
    );
}

#[test]
fn backup_plan_with_details_and_archive() {
    let paths = vec![entry("a", EntryKind::File), entry("x/d", EntryKind::Directory)];
    assert_eq!(
        backup(&paths, &print(VerboseLevel::On), "b/conf", false, true),
        vec![
            Action::Print("Backing up".to_string()),
            Action::CreateDir("b/conf".to_string()),
            Action::Print("[Debug] Copying file \"a\" to \"b/conf\"".to_string()),
            Action::Copy { from: "a".to_string(), to: "b/conf/a".to_string(), recursive: false },
            Action::Print("[Debug] Copying file \"x/d\" to \"b/conf\"".to_string()),
            Action::CreateDirAll("b/conf/x".to_string()),
            Action::Copy { from: "x/d".to_string(), to: "b/conf/x/d".to_string(), recursive: true },
            Action::Print("[Debug] Executing Tar".to_string()),
            Action::Archive {
                archive: "b/conf.tar.xz".to_string(),
                root: "b/".to_string(),
                member: "conf".to_string(),
            },
            Action::RemoveDirAll("b/conf".to_string()),
        ]
    );
}

#[test]
fn backup_plan_archives_quietly() {
    assert_eq!(
        backup(&[entry("a", EntryKind::File)], &print(VerboseLevel::Off), "conf", false, true),
        vec![
            Action::CreateDir("conf".to_string()),
            Action::Copy { from: "a".to_string(), to: "conf/a".to_string(), recursive: false },
            Action::Archive {
                archive: "conf.tar.xz".to_string(),
                root: ".".to_string(),
                member: "conf".to_string(),
            },
            Action::RemoveDirAll("conf".to_string()),
        ]
    );
}

#[test]
fn backup_plan_keeps_unicode_names() {
    let name = "\u{00D8}\u{00FB}\u{0226}/\u{4E2D}\u{6587}.conf";
    let plan = backup(&[entry(name, EntryKind::File)], &print(VerboseLevel::Off), "\u{00E9}t\u{00E9}", false, true);
    assert_eq!(
        plan,
        vec![
            Action::CreateDir("\u{00E9}t\u{00E9}".to_string()),
            Action::CreateDirAll("\u{00E9}t\u{00E9}/\u{00D8}\u{00FB}\u{0226}".to_string()),
            Action::Copy {
                from: name.to_string(),
                to: "\u{00E9}t\u{00E9}/\u{00D8}\u{00FB}\u{0226}/\u{4E2D}\u{6587}.conf".to_string(),
                recursive: false,
            },
            Action::Archive {
                archive: "\u{00E9}t\u{00E9}.tar.xz".to_string(),
                root: ".".to_string(),
                member: "\u{00E9}t\u{00E9}".to_string(),
            },
            Action::RemoveDirAll("\u{00E9}t\u{00E9}".to_string()),
        ]
    );
}

fn small_plan() -> Vec<Action> {
    backup(&[entry("a", EntryKind::File)], &print(VerboseLevel::Off), "out", false, true)
}

fn failed(exists: bool, cause: &str) -> Outcome {
    Outcome::Failed { exists, cause: cause.to_string() }
}

#[test]
fn run_hands_out_the_steps_in_order() {
    let plan = small_plan();
    let mut run = Run::new(plan.clone());
    for step in &plan {
        assert_eq!(run.pending(), Some(step));
        assert_eq!(run.result(), None);
        run.report(Outcome::Done);
    }
    assert_eq!(run.pending(), None);
    assert_eq!(run.result(), Some(Ok(())));
    run.report(failed(true, "late"));
    assert_eq!(run.pending(), None);
    assert_eq!(run.result(), Some(Ok(())));
}

#[test]
fn run_of_an_empty_plan_has_ended_well() {
    let mut run = Run::new(vec![]);
    assert_eq!(run.pending(), None);
    assert_eq!(run.result(), Some(Ok(())));
    run.report(Outcome::Done);
    assert_eq!(run.result(), Some(Ok(())));
}

#[test]
fn run_ends_on_an_existing_output_directory() {
    let mut run = Run::new(small_plan());
    assert_eq!(run.pending(), Some(&Action::CreateDir("out".to_string())));
    run.report(failed(true, "File exists (os error 17)"));
    assert_eq!(run.pending(), None);
    assert_eq!(run.result(), Some(Err(FatalError::already_exists("out"))));
    run.report(Outcome::Done);
    assert_eq!(run.pending(), None);
    assert_eq!(run.result(), Some(Err(FatalError::already_exists("out"))));
}

#[test]
fn run_passes_on_other_failures_with_their_cause() {
    let mut run = Run::new(small_plan());
    run.report(failed(false, "Permission denied (os error 13)"));
    assert_eq!(run.pending(), None);
    assert_eq!(run.result(), Some(Err(FatalError::error("Permission denied (os error 13)"))));

    let mut run = Run::new(small_plan());
    run.report(Outcome::Done);
    assert!(matches!(run.pending(), Some(Action::Copy { .. })));
    run.report(failed(true, "copy failed"));
    assert_eq!(run.pending(), None);
    assert_eq!(run.result(), Some(Err(FatalError::error("copy failed"))));
}

#[test]
fn run_never_removes_after_a_failed_archive() {
    let mut run = Run::new(small_plan());
    run.report(Outcome::Done);
    run.report(Outcome::Done);
    assert!(matches!(run.pending(), Some(Action::Archive { .. })));
    run.report(failed(false, "tar: exit status 2"));
    assert_eq!(run.pending(), None);
    assert_eq!(run.result(), Some(Err(FatalError::error("tar: exit status 2"))));
}

#[test]
fn all_paths_are_the_files() {
    let dir = DirContent {
        dir_size: 12,
        files: strings(&["d/a", "d/e/b"]),
        directories: strings(&["d", "d/e"]),
    };
    assert_eq!(all_paths(dir), strings(&["d/a", "d/e/b"]));
    let empty = DirContent { dir_size: 0, files: vec![], directories: strings(&["d"]) };
    assert_eq!(all_paths(empty), Vec::<String>::new());
}

#[test]
fn classify_asks_for_a_file_first() {
    assert_eq!(PathKind::classify(true, false), PathKind::File);
    assert_eq!(PathKind::classify(true, true), PathKind::File);
    assert_eq!(PathKind::classify(false, true), PathKind::Directory);
    assert_eq!(PathKind::classify(false, false), PathKind::Missing);
}

#[test]
fn conclude_names_what_was_made() {
    assert_eq!(
        conclude("conf/", false, true, Ok(())),
        BackupResult::Success {
            directory: "conf/".to_string(),
            archive: Some("conf.tar.xz".to_string()),
        }
    );
    assert_eq!(
        conclude("conf", false, false, Ok(())),
        BackupResult::Success { directory: "conf".to_string(), archive: None }
    );
    assert_eq!(
        conclude("conf", true, true, Ok(())),
        BackupResult::Success { directory: "conf".to_string(), archive: None }
    );
    assert_eq!(
        conclude("conf", false, true, Err(FatalError::already_exists("conf"))),
        BackupResult::Failure(FatalError::already_exists("conf"))
    );
}

#[test]
fn exit_code_is_zero_only_after_success() {
    assert_eq!(conclude("conf", false, true, Ok(())).exit_code(), 0);
    assert_eq!(conclude("conf", true, false, Ok(())).exit_code(), 0);
    assert_eq!(conclude("conf", false, true, Err(FatalError::error("x"))).exit_code(), 1);
    assert_eq!(BackupResult::Failure(FatalError::usage("x")).exit_code(), 1);
    assert_eq!(BackupResult::Failure(FatalError::file_not_found("x")).exit_code(), 1);
}

#[test]
fn copies_land_under_their_base_names() {
    assert_eq!(landing("out", "backMeUp1"), "out/backMeUp1");
    assert_eq!(landing("out", "a/b/c"), "out/a/b/c");
    assert_eq!(landing("out/", "dir/"), "out/dir");
    assert_eq!(landing("out", "./a//b/./c.txt"), "out/a/b/c.txt");
    assert_eq!(landing("out", "/etc/fstab"), "out/etc/fstab");
    assert_eq!(landing("out", "../x/file"), "out/x/file");
    assert_eq!(landing("", "a/b"), "a/b");
    assert_eq!(landing("out", "\u{00D8}\u{00FB}\u{0226}"), "out/\u{00D8}\u{00FB}\u{0226}");
    assert_eq!(landing("out", "."), "out");
    assert_eq!(landing("out", ""), "out");
    assert_eq!(landing("out", "/"), "out");
}
