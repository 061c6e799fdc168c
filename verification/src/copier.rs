//! The copy itself, as a plan: for each entry of a walked tree, whether it
//! is selected and where under the output directory it goes.
//!
//! Nothing here touches the file system. The caller walks the tree, hands
//! over what it found, and carries out the actions it gets back.

use crate::glob::glob_matches;
use crate::options::{CopyGlobOptions, CopyGlobOptionsBuilder, DEFAULT_EXCLUDE};
use crate::path::{
    file_name, join, join_path, last_segment, lemma_join_under_base, lemma_relative_of_join,
    relative_path, relative_to,
};
use crate::pattern::{any_matches, compiles, new_glob, reports, InvalidPatternError, Matcher};
use vstd::prelude::*;
use vstd::string::*;

verus! {

/// What kind of node an entry is. Whatever is neither a regular file nor a
/// directory (a symbolic link, a device) is `Other`.
#[derive(Debug, Clone, Copy, PartialEq, Eq, Structural)]
pub enum EntryKind {
    File,
    Directory,
    Other,
}

/// A node that the walk of a root came across.
#[derive(Debug, Clone, PartialEq, Eq)]
pub struct Entry {
    /// The path of the node as the walk gives it: the root, followed by
    /// the way from there to the node.
    pub path: String,
    /// The name of the node, under which a file is copied when the
    /// directory it should go to is missing.
    pub file_name: String,
    pub kind: EntryKind,
}

impl Entry {
    /// An entry whose file name is the last segment of its path.
    pub fn new(path: &str, kind: EntryKind) -> (r: Entry)
        ensures
            r@ == (EntryModel { path: path@, file_name: last_segment(path@), kind }),
    {
        Entry { path: path.to_owned(), file_name: file_name(path), kind }
    }
}

/// An entry as the contracts see it.
pub struct EntryModel {
    pub path: Seq<char>,
    pub file_name: Seq<char>,
    pub kind: EntryKind,
}

impl View for Entry {
    type V = EntryModel;

    open spec fn view(&self) -> EntryModel {
        EntryModel { path: self.path@, file_name: self.file_name@, kind: self.kind }
    }
}

/// What is to be done for one entry.
#[derive(Debug, Clone, PartialEq, Eq)]
pub enum Action {
    /// Nothing.
    Skip,
    /// Create the directory `target` and the directories above it, unless
    /// they are there already.
    CreateDir { target: String },
    /// Copy the file `source` to `target` if the directory that `target`
    /// lies in exists, and to `fallback` if it does not.
    CopyFile { source: String, target: String, fallback: String },
}

/// An action as the contracts see it.
pub enum ActionModel {
    Skip,
    CreateDir { target: Seq<char> },
    CopyFile { source: Seq<char>, target: Seq<char>, fallback: Seq<char> },
}

impl View for Action {
    type V = ActionModel;

    open spec fn view(&self) -> ActionModel {
        match self {
            Action::Skip => ActionModel::Skip,
            Action::CreateDir { target } => ActionModel::CreateDir { target: target@ },
            Action::CopyFile { source, target, fallback } => ActionModel::CopyFile {
                source: source@,
                target: target@,
                fallback: fallback@,
            },
        }
    }
}

/// Why a copy could not be planned.
#[derive(Debug, Clone, PartialEq, Eq)]
pub enum CopyError {
    /// The include pattern, or an exclude pattern, did not compile.
    InvalidPattern(InvalidPatternError),
    /// The entry at this position is selected, but its path does not start
    /// with the root.
    OutsideRoot { index: usize },
}

/// Whether an entry with this path is selected: the include pattern
/// matches it and no exclude pattern does.
pub open spec fn selected(pattern: Seq<char>, exclude: Seq<Seq<char>>, path: Seq<char>) -> bool {
    glob_matches(pattern, path) && !any_matches(exclude, path)
}

/// Where a selected entry goes. A directory is created, and a file copied,
/// at the entry's path relative to the root, placed under the output
/// directory; a file falls back to its bare name under the output
/// directory. `None` when the path does not start with the root.
pub open spec fn placement(root: Seq<char>, output_dir: Seq<char>, entry: EntryModel) -> Option<
    ActionModel,
> {
    match relative_to(entry.path, root) {
        None => None,
        Some(relative) => Some(
            match entry.kind {
                EntryKind::Directory => ActionModel::CreateDir {
                    target: join(output_dir, relative),
                },
                EntryKind::File => ActionModel::CopyFile {
                    source: entry.path,
                    target: join(output_dir, relative),
                    fallback: join(output_dir, entry.file_name),
                },
                EntryKind::Other => ActionModel::Skip,
            },
        ),
    }
}

/// What is done for an entry: nothing unless it is selected, and else what
/// `placement` says.
pub open spec fn plan(
    pattern: Seq<char>,
    exclude: Seq<Seq<char>>,
    root: Seq<char>,
    output_dir: Seq<char>,
    entry: EntryModel,
) -> Option<ActionModel> {
    if selected(pattern, exclude, entry.path) {
        placement(root, output_dir, entry)
    } else {
        Some(ActionModel::Skip)
    }
}

/// Where an action writes to: the target of a directory; for a file the
/// target if the directory above it exists and the fallback if not.
pub open spec fn destination(action: ActionModel, parent_exists: bool) -> Option<Seq<char>> {
    match action {
        ActionModel::Skip => None,
        ActionModel::CreateDir { target } => Some(target),
        ActionModel::CopyFile { source, target, fallback } => Some(
            if parent_exists {
                target
            } else {
                fallback
            },
        ),
    }
}

/// Whether `actions` is the plan of a whole copy: first the output
/// directory is created, then each entry gets its action, in the order of
/// the walk.
pub open spec fn is_plan(
    pattern: Seq<char>,
    options: crate::options::OptionsModel,
    output_dir: Seq<char>,
    entries: Seq<Entry>,
    actions: Seq<Action>,
) -> bool {
    &&& actions.len() == entries.len() + 1
    &&& actions[0]@ == (ActionModel::CreateDir { target: output_dir })
    &&& forall|i: int|
        0 <= i < entries.len() ==> plan(
            pattern,
            options.exclude,
            options.root,
            output_dir,
            #[trigger] entries[i]@,
        ) == Some(actions[i + 1]@)
}

/// Whether the entry at `index` is the first whose path does not start with
/// the root although it is selected.
pub open spec fn first_outside(
    pattern: Seq<char>,
    options: crate::options::OptionsModel,
    output_dir: Seq<char>,
    entries: Seq<Entry>,
    index: int,
) -> bool {
    &&& 0 <= index < entries.len()
    &&& plan(pattern, options.exclude, options.root, output_dir, entries[index]@).is_none()
    &&& forall|j: int|
        0 <= j < index ==> plan(
            pattern,
            options.exclude,
            options.root,
            output_dir,
            #[trigger] entries[j]@,
        ).is_some()
}

impl Action {
    /// Where the action writes to, given whether the directory above a
    /// file's target exists.
    pub fn destination(&self, parent_exists: bool) -> (r: Option<&str>)
        ensures
            match r {
                Some(path) => destination(self@, parent_exists) == Some(path@),
                None => destination(self@, parent_exists).is_none(),
            },
    {
        match self {
            Action::Skip => None,
            Action::CreateDir { target } => Some(target.as_str()),
            Action::CopyFile { source, target, fallback } => {
                if parent_exists {
                    Some(target.as_str())
                } else {
                    Some(fallback.as_str())
                }
            },
        }
    }
}

/// Whether an entry with this path is selected. The exclude patterns are
/// asked first.
pub fn selects(matcher: &Matcher, options: &CopyGlobOptions, path: &str) -> (r: bool)
    ensures
        r == selected(matcher@, options@.exclude, path@),
{
    if options.exclude().is_match(path) {
        false
    } else {
        matcher.matches(path)
    }
}

/// Places an entry that is selected.
pub fn place_entry(options: &CopyGlobOptions, output_dir: &str, entry: &Entry) -> (r: Option<
    Action,
>)
    ensures
        match r {
            Some(action) => placement(options@.root, output_dir@, entry@) == Some(action@),
            None => placement(options@.root, output_dir@, entry@).is_none(),
        },
{
    match relative_path(entry.path.as_str(), options.root()) {
        None => None,
        Some(relative) => Some(
            match entry.kind {
                EntryKind::Directory => Action::CreateDir {
                    target: join_path(output_dir, relative.as_str()),
                },
                EntryKind::File => Action::CopyFile {
                    source: entry.path.clone(),
                    target: join_path(output_dir, relative.as_str()),
                    fallback: join_path(output_dir, entry.file_name.as_str()),
                },
                EntryKind::Other => Action::Skip,
            },
        ),
    }
}

/// Decides what is done for one entry.
pub fn plan_entry(
    matcher: &Matcher,
    options: &CopyGlobOptions,
    output_dir: &str,
    entry: &Entry,
) -> (r: Option<Action>)
    ensures
        match r {
            Some(action) => plan(
                matcher@,
                options@.exclude,
                options@.root,
                output_dir@,
                entry@,
            ) == Some(action@),
            None => plan(matcher@, options@.exclude, options@.root, output_dir@, entry@).is_none(),
        },
{
    if selects(matcher, options, entry.path.as_str()) {
        place_entry(options, output_dir, entry)
    } else {
        Some(Action::Skip)
    }
}

/// Plans the copy of what `glob` selects among `entries`, the walk of the
/// options' root, into `output_dir`.
pub fn copy_glob_with(
    glob: &str,
    output_dir: &str,
    options: &CopyGlobOptions,
    entries: &Vec<Entry>,
) -> (r: Result<Vec<Action>, CopyError>)
    ensures
        match r {
            Ok(actions) => compiles(seq![glob@]) && is_plan(
                glob@,
                options@,
                output_dir@,
                entries@,
                actions@,
            ),
            Err(CopyError::InvalidPattern(error)) => reports(seq![glob@], error),
            Err(CopyError::OutsideRoot { index }) => compiles(seq![glob@]) && first_outside(
                glob@,
                options@,
                output_dir@,
                entries@,
                index as int,
            ),
        },
{
    let matcher = match new_glob(glob) {
        Ok(matcher) => matcher,
        Err(error) => {
            return Err(CopyError::InvalidPattern(error));
        },
    };
    let mut actions: Vec<Action> = Vec::new();
    actions.push(Action::CreateDir { target: output_dir.to_owned() });
    let mut i: usize = 0;
    while i < entries.len()
        invariant
            i <= entries.len(),
            matcher@ == glob@,
            compiles(seq![glob@]),
            actions.len() == i + 1,
            actions[0]@ == (ActionModel::CreateDir { target: output_dir@ }),
            forall|j: int|
                0 <= j < i ==> plan(
                    glob@,
                    options@.exclude,
                    options@.root,
                    output_dir@,
                    #[trigger] entries[j]@,
                ) == Some(actions[j + 1]@),
        decreases entries.len() - i,
    {
        match plan_entry(&matcher, options, output_dir, &entries[i]) {
            Some(action) => {
                actions.push(action);
            },
            None => {
                return Err(CopyError::OutsideRoot { index: i });
            },
        }
        i += 1;
    }
    Ok(actions)
}

/// Plans a copy with the default options: the walk started at `root`, and
/// `DEFAULT_EXCLUDE` is the one exclude pattern.
pub fn copy_glob(glob: &str, output_dir: &str, root: &str, entries: &Vec<Entry>) -> (r: Result<
    Vec<Action>,
    CopyError,
>)
    ensures
        match r {
            Ok(actions) => compiles(seq![DEFAULT_EXCLUDE@]) && compiles(seq![glob@]) && is_plan(
                glob@,
                default_options(root@),
                output_dir@,
                entries@,
                actions@,
            ),
            Err(CopyError::InvalidPattern(error)) => if compiles(seq![DEFAULT_EXCLUDE@]) {
                reports(seq![glob@], error)
            } else {
                reports(seq![DEFAULT_EXCLUDE@], error)
            },
            Err(CopyError::OutsideRoot { index }) => compiles(seq![DEFAULT_EXCLUDE@]) && compiles(
                seq![glob@],
            ) && first_outside(glob@, default_options(root@), output_dir@, entries@, index as int),
        },
{
    match CopyGlobOptionsBuilder::new(root).build() {
        Ok(options) => copy_glob_with(glob, output_dir, &options, entries),
        Err(error) => Err(CopyError::InvalidPattern(error)),
    }
}

/// The options that a copy has when none are given.
pub open spec fn default_options(root: Seq<char>) -> crate::options::OptionsModel {
    crate::options::OptionsModel { root, exclude: seq![DEFAULT_EXCLUDE@] }
}

/// The line that tells the build system to run the build script again when
/// `path` changes.
pub fn rerun_directive(path: &str) -> (r: String)
    ensures
        r@ == "cargo:rerun-if-changed="@ + path@,
{
    "cargo:rerun-if-changed=".to_owned().concat(path)
}

/// An entry under the root that is a file or a directory is acted on
/// exactly when the include pattern matches its path and no exclude pattern
/// does.
pub proof fn lemma_acted_on_iff_selected(
    pattern: Seq<char>,
    exclude: Seq<Seq<char>>,
    root: Seq<char>,
    output_dir: Seq<char>,
    entry: EntryModel,
)
    requires
        root.is_prefix_of(entry.path),
        entry.kind != EntryKind::Other,
    ensures
        plan(pattern, exclude, root, output_dir, entry).is_some(),
        plan(pattern, exclude, root, output_dir, entry) != Some(ActionModel::Skip) <==> (
        glob_matches(pattern, entry.path) && !any_matches(exclude, entry.path)),
{
}

/// Exclusion comes first: an entry that an exclude pattern matches is
/// skipped, whether or not the include pattern matches it, and whatever
/// its kind and path.
pub proof fn lemma_excluded_is_skipped(
    pattern: Seq<char>,
    exclude: Seq<Seq<char>>,
    root: Seq<char>,
    output_dir: Seq<char>,
    entry: EntryModel,
)
    ensures
        any_matches(exclude, entry.path) ==> plan(pattern, exclude, root, output_dir, entry)
            == Some(ActionModel::Skip),
{
}

/// With the default options, an entry whose path `DEFAULT_EXCLUDE` matches
/// is skipped, whatever the include pattern.
pub proof fn lemma_default_exclusion(
    pattern: Seq<char>,
    root: Seq<char>,
    output_dir: Seq<char>,
    entry: EntryModel,
)
    ensures
        glob_matches(DEFAULT_EXCLUDE@, entry.path) ==> plan(
            pattern,
            default_options(root).exclude,
            root,
            output_dir,
            entry,
        ) == Some(ActionModel::Skip),
{
    let exclude = default_options(root).exclude;
    if glob_matches(DEFAULT_EXCLUDE@, entry.path) {
        assert(glob_matches(exclude[0], entry.path));
    }
}

/// The structure below the root is kept: an entry found at `relative`
/// under the root is placed at `relative` under the output directory.
pub proof fn lemma_structure_preserved(
    root: Seq<char>,
    output_dir: Seq<char>,
    relative: Seq<char>,
    entry: EntryModel,
)
    requires
        entry.path == join(root, relative),
        relative.len() > 0 ==> relative[0] != '/' && relative[0] != '\\',
    ensures
        entry.kind == EntryKind::Directory ==> placement(root, output_dir, entry) == Some(
            ActionModel::CreateDir { target: join(output_dir, relative) },
        ),
        entry.kind == EntryKind::File ==> placement(root, output_dir, entry) == Some(
            ActionModel::CopyFile {
                source: entry.path,
                target: join(output_dir, relative),
                fallback: join(output_dir, entry.file_name),
            },
        ),
{
    lemma_relative_of_join(root, relative);
}

/// Nothing is written outside the output directory: wherever an action
/// writes to, that path starts with the output directory.
pub proof fn lemma_destination_under_output(
    root: Seq<char>,
    output_dir: Seq<char>,
    entry: EntryModel,
    parent_exists: bool,
)
    ensures
        placement(root, output_dir, entry) matches Some(action) ==> (destination(
            action,
            parent_exists,
        ) matches Some(path) ==> output_dir.is_prefix_of(path)),
{
    if let Some(relative) = relative_to(entry.path, root) {
        lemma_join_under_base(output_dir, relative);
        lemma_join_under_base(output_dir, entry.file_name);
    }
}

/// When the directory above a file's target is missing, the file goes
/// straight into the output directory under its bare name, and the
/// structure below the root is left out.
pub proof fn lemma_missing_parent_falls_back(
    root: Seq<char>,
    output_dir: Seq<char>,
    entry: EntryModel,
)
    requires
        root.is_prefix_of(entry.path),
        entry.kind == EntryKind::File,
    ensures
        placement(root, output_dir, entry) matches Some(action) && destination(action, false)
            == Some(join(output_dir, entry.file_name)),
{
}

/// The plan of a copy is determined by the patterns, the root, the output
/// directory and the entries: planning the same copy twice gives the same
/// actions.
pub proof fn lemma_plan_is_determined(
    pattern: Seq<char>,
    options: crate::options::OptionsModel,
    output_dir: Seq<char>,
    entries: Seq<Entry>,
    first: Seq<Action>,
    second: Seq<Action>,
)
    requires
        is_plan(pattern, options, output_dir, entries, first),
        is_plan(pattern, options, output_dir, entries, second),
    ensures
        first.len() == second.len(),
        forall|i: int| 0 <= i < first.len() ==> first[i]@ == second[i]@,
{
    assert forall|i: int| 0 <= i < first.len() implies first[i]@ == second[i]@ by {
        if i > 0 {
            let at = plan(pattern, options.exclude, options.root, output_dir, entries[i - 1]@);
            assert(at == Some(first[i - 1 + 1]@));
            assert(at == Some(second[i - 1 + 1]@));
        }
    }
}

} // verus!
