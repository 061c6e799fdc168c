//! Compiled patterns: a matcher for one include pattern and a set of exclude
//! patterns.

use crate::glob::{
    builder_add, builder_build, builder_patterns, glob_matches, glob_parses, new_builder,
    parse_glob, set_compiles, set_is_match, set_patterns,
};
use globset::GlobSet;
use vstd::prelude::*;

verus! {

/// Why a pattern, or a list of patterns, could not be compiled.
#[derive(Debug, Clone, PartialEq, Eq)]
pub enum InvalidPatternError {
    /// This pattern is not a well-formed glob.
    Malformed { pattern: String },
    /// Every pattern is well formed, but together they could not be
    /// compiled into a matcher.
    Uncompilable,
}

/// The text of each pattern of a list.
pub open spec fn texts(patterns: Seq<String>) -> Seq<Seq<char>> {
    Seq::new(patterns.len(), |i: int| patterns[i]@)
}

/// Whether every pattern of the list is a well-formed glob.
pub open spec fn all_parse(patterns: Seq<Seq<char>>) -> bool {
    forall|i: int| 0 <= i < patterns.len() ==> glob_parses(#[trigger] patterns[i])
}

/// Whether `i` is the position of the first pattern of the list that is not
/// a well-formed glob.
pub open spec fn first_malformed(patterns: Seq<Seq<char>>, i: int) -> bool {
    &&& 0 <= i < patterns.len()
    &&& !glob_parses(patterns[i])
    &&& forall|j: int| 0 <= j < i ==> glob_parses(#[trigger] patterns[j])
}

/// Whether the list compiles: every pattern is well formed and the set of
/// them can be built.
pub open spec fn compiles(patterns: Seq<Seq<char>>) -> bool {
    all_parse(patterns) && set_compiles(patterns)
}

/// Whether `error` is what compiling the list reports: the first malformed
/// pattern if there is one, and otherwise that the set cannot be built.
pub open spec fn reports(patterns: Seq<Seq<char>>, error: InvalidPatternError) -> bool {
    match error {
        InvalidPatternError::Malformed { pattern } => exists|i: int|
            first_malformed(patterns, i) && pattern@ == #[trigger] patterns[i],
        InvalidPatternError::Uncompilable => all_parse(patterns) && !set_compiles(patterns),
    }
}

/// Whether some pattern of `patterns` matches `path`.
pub open spec fn any_matches(patterns: Seq<Seq<char>>, path: Seq<char>) -> bool {
    exists|i: int| 0 <= i < patterns.len() && #[trigger] glob_matches(patterns[i], path)
}

/// Parses each pattern in order and compiles them into one set. Stops at
/// the first pattern that is malformed.
fn compile_set(patterns: &Vec<String>) -> (r: Result<GlobSet, InvalidPatternError>)
    ensures
        match r {
            Ok(set) => compiles(texts(patterns@)) && set_patterns(set) == texts(patterns@),
            Err(error) => reports(texts(patterns@), error),
        },
{
    let ghost all = texts(patterns@);
    let mut builder = new_builder();
    let mut i: usize = 0;
    while i < patterns.len()
        invariant
            i <= patterns.len(),
            all == texts(patterns@),
            builder_patterns(builder) == all.take(i as int),
            forall|j: int| 0 <= j < i ==> glob_parses(#[trigger] all[j]),
        decreases patterns.len() - i,
    {
        match parse_glob(patterns[i].as_str()) {
            Ok(glob) => {
                builder_add(&mut builder, glob);
                assert(all.take(i as int).push(all[i as int]) == all.take(i as int + 1));
            },
            Err(_) => {
                assert(first_malformed(all, i as int) && patterns[i as int]@ == all[i as int]);
                return Err(InvalidPatternError::Malformed { pattern: patterns[i].clone() });
            },
        }
        i += 1;
    }
    assert(all.take(i as int) == all);
    match builder_build(&builder) {
        Ok(set) => Ok(set),
        Err(_) => Err(InvalidPatternError::Uncompilable),
    }
}

/// A compiled include pattern. It is held as a set of one glob, whose
/// compilation reports a pattern that is too large instead of panicking.
pub struct Matcher {
    set: GlobSet,
}

impl View for Matcher {
    type V = Seq<char>;

    /// The pattern that the matcher was compiled from.
    closed spec fn view(&self) -> Seq<char> {
        set_patterns(self.set)[0]
    }
}

impl Matcher {
    #[verifier::type_invariant]
    spec fn holds_one_pattern(self) -> bool {
        set_patterns(self.set).len() == 1
    }

    /// Whether the pattern matches `path`.
    pub fn matches(&self, path: &str) -> (r: bool)
        ensures
            r == glob_matches(self@, path@),
    {
        proof {
            use_type_invariant(self);
        }
        set_is_match(&self.set, path)
    }
}

/// Compiles one glob pattern into a matcher.
pub fn new_glob(glob: &str) -> (r: Result<Matcher, InvalidPatternError>)
    ensures
        match r {
            Ok(matcher) => compiles(seq![glob@]) && matcher@ == glob@,
            Err(error) => reports(seq![glob@], error),
        },
{
    let mut patterns: Vec<String> = Vec::new();
    patterns.push(glob.to_owned());
    assert(texts(patterns@) =~= seq![glob@]);
    match compile_set(&patterns) {
        Ok(set) => Ok(Matcher { set }),
        Err(error) => Err(error),
    }
}

/// A compiled set of exclude patterns. A path is excluded when at least one
/// pattern of the set matches it.
pub struct ExcludeSet {
    set: GlobSet,
}

impl View for ExcludeSet {
    type V = Seq<Seq<char>>;

    /// The patterns of the set, in the order in which they were given.
    closed spec fn view(&self) -> Seq<Seq<char>> {
        set_patterns(self.set)
    }
}

impl ExcludeSet {
    /// Compiles the patterns into a set. Fails on the first malformed
    /// pattern, or when the patterns together cannot be compiled.
    pub fn build(patterns: &Vec<String>) -> (r: Result<ExcludeSet, InvalidPatternError>)
        ensures
            match r {
                Ok(set) => compiles(texts(patterns@)) && set@ == texts(patterns@),
                Err(error) => reports(texts(patterns@), error),
            },
    {
        match compile_set(patterns) {
            Ok(set) => Ok(ExcludeSet { set }),
            Err(e) => Err(e),
        }
    }

    /// Whether some pattern of the set matches `path`.
    pub fn is_match(&self, path: &str) -> (r: bool)
        ensures
            r == any_matches(self@, path@),
    {
        set_is_match(&self.set, path)
    }
}

/// A list of patterns either compiles or has an error to report, never
/// both.
pub proof fn lemma_error_excludes_success(
    patterns: Seq<Seq<char>>,
    error: InvalidPatternError,
)
    ensures
        reports(patterns, error) ==> !compiles(patterns),
{
}

/// A set excludes a path exactly when one of its patterns does: adding a
/// pattern adds what that pattern matches and takes nothing away.
pub proof fn lemma_any_matches_push(patterns: Seq<Seq<char>>, pattern: Seq<char>, path: Seq<char>)
    ensures
        any_matches(patterns.push(pattern), path) == (any_matches(patterns, path) || glob_matches(
            pattern,
            path,
        )),
{
    let longer = patterns.push(pattern);
    if any_matches(patterns, path) {
        let i = choose|i: int| 0 <= i < patterns.len() && glob_matches(patterns[i], path);
        assert(glob_matches(longer[i], path));
    }
    if glob_matches(pattern, path) {
        assert(glob_matches(longer[patterns.len() as int], path));
    }
    if any_matches(longer, path) {
        let i = choose|i: int| 0 <= i < longer.len() && glob_matches(longer[i], path);
        if i < patterns.len() {
            assert(glob_matches(patterns[i], path));
        }
    }
}

/// Whether a set excludes a path does not depend on the order of its
/// patterns, nor on how often a pattern occurs: two lists with the same
/// patterns exclude the same paths.
pub proof fn lemma_any_matches_unordered(a: Seq<Seq<char>>, b: Seq<Seq<char>>, path: Seq<char>)
    requires
        forall|i: int| 0 <= i < a.len() ==> b.contains(#[trigger] a[i]),
        forall|i: int| 0 <= i < b.len() ==> a.contains(#[trigger] b[i]),
    ensures
        any_matches(a, path) == any_matches(b, path),
{
    if any_matches(a, path) {
        let i = choose|i: int| 0 <= i < a.len() && glob_matches(a[i], path);
        assert(b.contains(a[i]));
        let j = choose|j: int| 0 <= j < b.len() && b[j] == a[i];
        assert(glob_matches(b[j], path));
    }
    if any_matches(b, path) {
        let i = choose|i: int| 0 <= i < b.len() && glob_matches(b[i], path);
        assert(a.contains(b[i]));
        let j = choose|j: int| 0 <= j < a.len() && a[j] == b[i];
        assert(glob_matches(a[j], path));
    }
}

} // verus!
