//! Glob patterns, compiled and matched by the `globset` crate.
//!
//! What `globset` computes is not proved here. It is named by the
//! uninterpreted functions below, and the declarations marked
//! `external_body` state, over those names, what the crate's source and
//! documentation show.

use globset::{Error, Glob, GlobSet, GlobSetBuilder};
use vstd::prelude::*;

verus! {

/// A glob of `globset` that parsed: opaque, carried from `Glob::new` into a
/// builder. Every glob in this library comes from `parse_glob`, and so has
/// the crate's default options.
#[verifier::external_type_specification]
#[verifier::external_body]
pub struct ExGlob(Glob);

/// The error that `globset` reports for a pattern: opaque.
#[verifier::external_type_specification]
#[verifier::external_body]
pub struct ExGlobError(Error);

/// The patterns collected so far for a set: opaque.
#[verifier::external_type_specification]
#[verifier::external_body]
pub struct ExGlobSetBuilder(GlobSetBuilder);

/// A compiled set of globs: opaque.
#[verifier::external_type_specification]
#[verifier::external_body]
pub struct ExGlobSet(GlobSet);

/// Whether `Glob::new` accepts `pattern`, on the platform the crate is built
/// for.
pub uninterp spec fn glob_parses(pattern: Seq<char>) -> bool;

/// The pattern that a parsed glob was built from.
pub uninterp spec fn glob_source(glob: Glob) -> Seq<char>;

/// The patterns that were added to a builder, in the order of the calls.
pub uninterp spec fn builder_patterns(builder: GlobSetBuilder) -> Seq<Seq<char>>;

/// The patterns that a compiled set was built from, in the order in which
/// they were added.
pub uninterp spec fn set_patterns(set: GlobSet) -> Seq<Seq<char>>;

/// Whether `GlobSetBuilder::build` succeeds on a builder that holds these
/// patterns, each of which parsed. It fails when the regular expression
/// that stands for them grows beyond the size that `globset` allows.
pub uninterp spec fn set_compiles(patterns: Seq<Seq<char>>) -> bool;

/// Whether the glob parsed from `pattern` with the default options matches
/// `path`, on the platform the crate is built for. With those options a
/// wildcard is not stopped by a separator: `*` may match across `/`.
pub uninterp spec fn glob_matches(pattern: Seq<char>, path: Seq<char>) -> bool;

/// `Glob::new`: parses `pattern` with the default options. The result is
/// `Ok` exactly when the pattern is well formed, and the glob then records
/// the pattern as given.
#[verifier::external_body]
pub(crate) fn parse_glob(pattern: &str) -> (r: Result<Glob, Error>)
    ensures
        r.is_ok() == glob_parses(pattern@),
        r matches Ok(g) ==> glob_source(g) == pattern@,
{
    Glob::new(pattern)
}

/// `GlobSet::builder`: a builder that holds no pattern.
#[verifier::external_body]
pub(crate) fn new_builder() -> (r: GlobSetBuilder)
    ensures
        builder_patterns(r) == Seq::<Seq<char>>::empty(),
{
    GlobSet::builder()
}

/// `GlobSetBuilder::add`: appends the glob's pattern to those the builder
/// holds.
#[verifier::external_body]
pub(crate) fn builder_add(builder: &mut GlobSetBuilder, glob: Glob)
    ensures
        builder_patterns(*final(builder)) == builder_patterns(*old(builder)).push(
            glob_source(glob),
        ),
{
    builder.add(glob);
}

/// `GlobSetBuilder::build`: compiles the patterns added so far into one
/// set, and reports an error where `Glob::compile_matcher` would panic.
/// Whether it succeeds depends on the patterns alone; the set holds them
/// in the order in which they were added.
#[verifier::external_body]
pub(crate) fn builder_build(builder: &GlobSetBuilder) -> (r: Result<GlobSet, Error>)
    ensures
        r.is_ok() == set_compiles(builder_patterns(*builder)),
        r matches Ok(set) ==> set_patterns(set) == builder_patterns(*builder),
{
    builder.build()
}

/// `GlobSet::is_match`: true exactly when some glob of the set matches
/// `path`. An empty set matches nothing.
#[verifier::external_body]
pub(crate) fn set_is_match(set: &GlobSet, path: &str) -> (r: bool)
    ensures
        r == (exists|i: int|
            0 <= i < set_patterns(*set).len() && #[trigger] glob_matches(
                set_patterns(*set)[i],
                path@,
            )),
{
    set.is_match(path)
}

} // verus!
