//! Options of a copy: the root that is walked and the patterns that exclude
//! entries from it, with the builder that collects them.

use crate::path::{join, join_path};
use crate::pattern::{compiles, reports, texts, ExcludeSet, InvalidPatternError};
use vstd::prelude::*;

verus! {

/// The pattern that every new builder starts with: whatever lies in a
/// directory named `target`, the conventional build output.
pub const DEFAULT_EXCLUDE: &'static str = "**/target/*";

/// What a set of options says: the root of the walk and the exclude
/// patterns in the order in which they were added.
pub struct OptionsModel {
    pub root: Seq<char>,
    pub exclude: Seq<Seq<char>>,
}

/// The options of a copy, with the exclude patterns compiled.
pub struct CopyGlobOptions {
    root: String,
    exclude: ExcludeSet,
}

impl View for CopyGlobOptions {
    type V = OptionsModel;

    closed spec fn view(&self) -> OptionsModel {
        OptionsModel { root: self.root@, exclude: self.exclude@ }
    }
}

impl CopyGlobOptions {
    /// The root of the walk.
    pub fn root(&self) -> (r: &str)
        ensures
            r@ == self@.root,
    {
        self.root.as_str()
    }

    /// The compiled exclude patterns.
    pub fn exclude(&self) -> (r: &ExcludeSet)
        ensures
            r@ == self@.exclude,
    {
        &self.exclude
    }
}

/// Collects the options of a copy before the patterns are compiled.
pub struct CopyGlobOptionsBuilder {
    root: String,
    exclude: Vec<String>,
}

impl View for CopyGlobOptionsBuilder {
    type V = OptionsModel;

    closed spec fn view(&self) -> OptionsModel {
        OptionsModel { root: self.root@, exclude: texts(self.exclude@) }
    }
}

impl CopyGlobOptionsBuilder {
    /// A builder with the given root that excludes `DEFAULT_EXCLUDE` and
    /// nothing else.
    pub fn new(root: &str) -> (r: Self)
        ensures
            r@ == (OptionsModel { root: root@, exclude: seq![DEFAULT_EXCLUDE@] }),
    {
        let mut exclude: Vec<String> = Vec::new();
        exclude.push(DEFAULT_EXCLUDE.to_owned());
        assert(texts(exclude@) =~= seq![DEFAULT_EXCLUDE@]);
        CopyGlobOptionsBuilder { root: root.to_owned(), exclude }
    }

    /// Replaces the root of the walk and keeps the exclude patterns.
    pub fn set_root_path(self, root: &str) -> (r: Self)
        ensures
            r@ == (OptionsModel { root: root@, exclude: self@.exclude }),
    {
        CopyGlobOptionsBuilder { root: root.to_owned(), exclude: self.exclude }
    }

    /// Adds one exclude pattern behind those already there.
    pub fn add_exclude(self, glob: &str) -> (r: Self)
        ensures
            r@ == (OptionsModel { root: self@.root, exclude: self@.exclude.push(glob@) }),
    {
        let mut exclude = self.exclude;
        exclude.push(glob.to_owned());
        assert(texts(exclude@) =~= texts(self.exclude@).push(glob@));
        CopyGlobOptionsBuilder { root: self.root, exclude }
    }

    /// Drops every exclude pattern, the default one included, and keeps
    /// the root.
    pub fn clear_excludes(self) -> (r: Self)
        ensures
            r@ == (OptionsModel { root: self@.root, exclude: Seq::empty() }),
    {
        let exclude: Vec<String> = Vec::new();
        assert(texts(exclude@) =~= Seq::<Seq<char>>::empty());
        CopyGlobOptionsBuilder { root: self.root, exclude }
    }

    /// Compiles the exclude patterns. Fails on the first malformed pattern,
    /// or when the patterns together cannot be compiled.
    pub fn build(self) -> (r: Result<CopyGlobOptions, InvalidPatternError>)
        ensures
            match r {
                Ok(options) => compiles(self@.exclude) && options@ == self@,
                Err(error) => reports(self@.exclude, error),
            },
    {
        match ExcludeSet::build(&self.exclude) {
            Ok(exclude) => Ok(CopyGlobOptions { root: self.root, exclude }),
            Err(error) => Err(error),
        }
    }
}

/// The root of a project: the directory that holds its manifest.
pub fn get_root_path(manifest_dir: &str) -> (r: String)
    ensures
        r@ == manifest_dir@,
{
    manifest_dir.to_owned()
}

/// The directory that a build of the project writes to: `target/release`
/// under the project's root for a release build, `target/debug` otherwise.
pub fn get_target_folder(manifest_dir: &str, release: bool) -> (r: String)
    ensures
        r@ == join(
            join(manifest_dir@, "target"@),
            if release {
                "release"@
            } else {
                "debug"@
            },
        ),
{
    let path = join_path(manifest_dir, "target");
    if release {
        join_path(path.as_str(), "release")
    } else {
        join_path(path.as_str(), "debug")
    }
}

} // verus!
