//! Planning of glob-driven copies: which entries of a walked tree are
//! selected by an include pattern and a set of exclude patterns, and where
//! under an output directory each selected entry is placed.
//!
//! The library computes on plain values (strings, entry kinds, actions);
//! walking the tree and touching the file system is left to the caller,
//! who carries out the actions that the plan names.

pub mod copier;
pub mod glob;
pub mod options;
pub mod path;
pub mod pattern;

pub use copier::{
    copy_glob, copy_glob_with, place_entry, plan_entry, rerun_directive, selects, Action,
    CopyError, Entry, EntryKind,
};
pub use options::{
    get_root_path, get_target_folder, CopyGlobOptions, CopyGlobOptionsBuilder, DEFAULT_EXCLUDE,
};
pub use path::{file_name, join_path, relative_path, starts_with};
pub use pattern::{new_glob, ExcludeSet, InvalidPatternError, Matcher};
