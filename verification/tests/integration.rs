//! Whole runs, from the options to the last step, against a directory that
//! exists only in the test: each run is driven the way a program would
//! drive it, with every step reported as done.

use confbk::args::{Date, Opt};
use confbk::manifest::Manifest;
use confbk::plan::Action;
use confbk::run::{Outcome, Run};
use confbk::util::{backup, ErrorKind, FatalError};
use confbk::validate::{PathKind, Survey};

/// The working directory of a run: what is in it, and the text of the
/// files that serve as manifests.
struct Env {
    found: Survey,
    texts: Vec<(String, String)>,
}

fn setup_env() -> Env {
    let mut found = Survey::new();
    found.record("backMeUp1", PathKind::File);
    found.record("backMeUp2", PathKind::File);
    found.record("backMeUp3", PathKind::File);
    found.record("\x1B00D8\x1B00FB\x1B0226", PathKind::File);
    found.record("listOfConfigs1-2", PathKind::File);
    found.record("listThatFails", PathKind::File);
    let texts = vec![
        ("listOfConfigs1-2".to_string(), "backMeUp1\nbackMeUp2\n".to_string()),
        ("listThatFails".to_string(), "IDontExist\n".to_string()),
    ];
    Env { found, texts }
}

/// What the user typed.
struct Args {
    out: Option<&'static str>,
    dry_run: bool,
    quiet: bool,
    verbose: bool,
    file: Option<&'static str>,
    list: Vec<&'static str>,
    tar: bool,
}

fn args() -> Args {
    Args { out: None, dry_run: false, quiet: false, verbose: false, file: None, list: vec![], tar: false }
}

/// What a run left behind.
struct Ran {
    result: Result<(), FatalError>,
    stdout: String,
    steps: Vec<Action>,
    out: String,
}

impl Ran {
    fn success(&self) -> bool {
        self.result.is_ok()
    }

    fn failure(&self) -> bool {
        match &self.result {
            Ok(()) => false,
            Err(error) => error.exit_code() != 0,
        }
    }

    /// The names of what was copied straight into the output directory.
    fn copied(&self) -> Vec<String> {
        let mut names = Vec::new();
        for step in &self.steps {
            if let Action::Copy { from, to, .. } = step {
                if *to == format!("{}/{}", self.out, from) {
                    names.push(from.clone());
                }
            }
        }
        names
    }
}

fn today() -> Date {
    Date { year: 2019, month: 3, day: 7 }
}

fn confbk(env: &Env, given: Args, dump: &str) -> Ran {
    let mut ran = Ran { result: Ok(()), stdout: String::new(), steps: Vec::new(), out: String::new() };
    let opt = match Opt::new(
        given.out.map(|s| s.to_string()),
        given.dry_run,
        given.quiet,
        given.verbose,
        given.file.map(|s| s.to_string()),
        given.list.iter().map(|s| s.to_string()).collect(),
        given.tar,
    ) {
        Ok(opt) => opt,
        Err(error) => {
            ran.result = Err(error);
            return ran;
        }
    };
    let print = opt.print();
    let manifest = match opt.file() {
        Some(file) if env.found.kind_of(file) == PathKind::File => {
            match env.texts.iter().find(|(name, _)| name == file) {
                Some((_, text)) => Manifest::Text(text.clone()),
                None => Manifest::Text(String::new()),
            }
        }
        _ => Manifest::Missing,
    };
    let entries = match opt.validate_paths(&manifest, &env.found) {
        Ok(entries) => entries,
        Err(error) => {
            ran.result = Err(error);
            return ran;
        }
    };
    if let Some(line) = print.debug(dump) {
        ran.stdout.push_str(&line);
        ran.stdout.push('\n');
    }
    ran.out = opt.output_path(&today());
    let plan = backup(&entries, &print, &ran.out, opt.dry_run(), opt.tar());
    let mut run = Run::new(plan);
    loop {
        let step = match run.pending() {
            Some(step) => step.clone(),
            None => break,
        };
        if let Action::Print(line) = &step {
            ran.stdout.push_str(line);
            ran.stdout.push('\n');
        } else {
            ran.steps.push(step);
        }
        run.report(Outcome::Done);
    }
    ran.result = run.result().expect("a run without a pending step has ended");
    ran
}

#[test]
fn no_args() {
    let env = setup_env();
    let ran = confbk(&env, args(), "");
    assert!(ran.failure());
    assert_eq!(ran.result.unwrap_err().kind, ErrorKind::Usage);
    assert_eq!(ran.stdout, "");
}

#[test]
fn list() {
    let env = setup_env();
    let ran = confbk(&env, Args { list: vec!["backMeUp1", "backMeUp2"], ..args() }, "");
    assert!(ran.success());
    assert_eq!(ran.stdout, "Backing up\n");
    assert!(ran.out.starts_with("confbk_backup"));
    assert_eq!(ran.steps[0], Action::CreateDir(ran.out.clone()));
    let files = ran.copied();
    assert!(files.contains(&"backMeUp1".to_string()));
    assert!(files.contains(&"backMeUp2".to_string()));
}

#[test]
fn file() {
    let env = setup_env();
    let ran = confbk(&env, Args { file: Some("listOfConfigs1-2"), ..args() }, "");
    assert!(ran.success());
    assert_eq!(ran.stdout, "Backing up\n");
    assert!(ran.out.starts_with("confbk_backup"));
    assert_eq!(ran.steps[0], Action::CreateDir(ran.out.clone()));
    let files = ran.copied();
    assert!(files.contains(&"backMeUp1".to_string()));
    assert!(files.contains(&"backMeUp2".to_string()));
}

#[test]
fn tar() {
    let env = setup_env();
    let ran = confbk(
        &env,
        Args { file: Some("listOfConfigs1-2"), tar: true, out: Some("conf"), ..args() },
        "",
    );
    assert!(ran.success());
    assert_eq!(ran.stdout, "Backing up\n");
    let files = ran.copied();
    assert!(files.contains(&"backMeUp1".to_string()) && files.contains(&"backMeUp2".to_string()));
    let n = ran.steps.len();
    assert_eq!(
        ran.steps[n - 2],
        Action::Archive {
            archive: "conf.tar.xz".to_string(),
            root: ".".to_string(),
            member: "conf".to_string(),
        }
    );
    assert_eq!(ran.steps[n - 1], Action::RemoveDirAll("conf".to_string()));
}

#[test]
fn list_and_file() {
    let env = setup_env();
    let ran = confbk(
        &env,
        Args { file: Some("listOfConfigs1-2"), list: vec!["backMeUp3"], ..args() },
        "",
    );
    assert!(ran.success());
    assert_eq!(ran.stdout, "Backing up\n");
    assert!(ran.out.starts_with("confbk_backup"));
    let files = ran.copied();
    assert!(files.contains(&"backMeUp1".to_string()));
    assert!(files.contains(&"backMeUp2".to_string()));
    assert!(files.contains(&"backMeUp3".to_string()));
    assert_eq!(files, vec!["backMeUp3", "backMeUp1", "backMeUp2"]);
}

#[test]
fn dry_run() {
    let env = setup_env();
    let ran = confbk(&env, Args { list: vec!["backMeUp1"], dry_run: true, ..args() }, "");
    assert!(ran.success());
    assert_eq!(
        ran.stdout,
        "Files to be backed up:\n\
             \u{0020}   backMeUp1\n",
    );
    assert!(ran.steps.is_empty());
}

#[test]
fn verbose() {
    let dump = "Opt {\n    \
                out: None,\n    \
                dry_run: true,\n    \
                quiet: false,\n    \
                verbose: true,\n    \
                file: None,\n    \
                list: [\n        \
                \"backMeUp1\"\n    \
                ],\n    \
                tar: false\n\
                }";
    let stdout = "[Debug] Opt {\n    \
                  out: None,\n    \
                  dry_run: true,\n    \
                  quiet: false,\n    \
                  verbose: true,\n    \
                  file: None,\n    \
                  list: [\n        \
                  \"backMeUp1\"\n    \
                  ],\n    \
                  tar: false\n\
                  }\n\
                  Files to be backed up:\n    \
                  backMeUp1\n";
    let env = setup_env();
    let ran = confbk(
        &env,
        Args { list: vec!["backMeUp1"], dry_run: true, verbose: true, ..args() },
        dump,
    );
    assert!(ran.success());
    assert_eq!(ran.stdout, stdout);
}

#[test]
fn quiet() {
    let env = setup_env();
    let ran = confbk(&env, Args { list: vec!["backMeUp1"], dry_run: true, quiet: true, ..args() }, "");
    assert!(ran.success());
    assert_eq!(ran.stdout, "");
}

#[test]
fn quiet_and_verbose() {
    let env = setup_env();
    let ran = confbk(&env, Args { list: vec!["backMeUp1"], verbose: true, quiet: true, ..args() }, "");
    assert!(ran.failure());
    assert_eq!(ran.result.unwrap_err().kind, ErrorKind::Usage);
    assert!(ran.steps.is_empty());
}

#[test]
fn file_in_list_doesnt_exist() {
    let env = setup_env();
    let ran = confbk(&env, Args { list: vec!["IDontExist"], ..args() }, "");
    assert!(ran.failure());
    assert_eq!(ran.result, Err(FatalError::file_not_found("IDontExist")));
    assert!(ran.steps.is_empty());
}

#[test]
fn file_doesnt_exist() {
    let env = setup_env();
    let ran = confbk(&env, Args { file: Some("listOfNonExistentConfig"), ..args() }, "");
    assert!(ran.failure());
    assert_eq!(ran.result, Err(FatalError::file_not_found("listOfNonExistentConfig")));
    assert!(ran.steps.is_empty());
}

#[test]
fn file_in_file_doesnt_exist() {
    let env = setup_env();
    let ran = confbk(&env, Args { file: Some("listThatFails"), ..args() }, "");
    assert!(ran.failure());
    assert_eq!(ran.result, Err(FatalError::file_not_found("IDontExist")));
    assert_eq!(ran.stdout, "");
    assert!(ran.steps.is_empty());
}

#[test]
fn unicode_support() {
    let env = setup_env();
    let ran = confbk(&env, Args { list: vec!["\x1B00D8\x1B00FB\x1B0226"], ..args() }, "");
    assert!(ran.success());
    assert!(ran.out.starts_with("confbk_backup"));
    let files = ran.copied();
    assert!(files.contains(&"\x1B00D8\x1B00FB\x1B0226".to_string()));
}
