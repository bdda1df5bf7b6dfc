//! The decisions of a small backup tool for configuration files, with none
//! of its effects: which options are acceptable, which of the requested
//! paths may be backed up, and the exact sequence of steps that a run
//! consists of. Whoever uses the library looks at the disk, performs the
//! steps and reports how each one went.
//!
//! - `args`: the options of a run and the validation of the paths they name
//! - `manifest`: the text that lists paths, one per line
//! - `validate`: what was seen on the disk, and the entries of a backup
//! - `path`: where a copy is put and how the archive is named
//! - `plan`: the steps of a run and what holds of every plan
//! - `util`: levels of output, errors, and the planning of a backup
//! - `run`: taking the steps in order, and how a run ends
//! - `text`: splitting text at a separator

pub mod args;
pub mod manifest;
pub mod path;
pub mod plan;
pub mod run;
pub mod text;
pub mod util;
pub mod validate;
