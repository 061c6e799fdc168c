//! Paths as text. A path is a string whose segments are separated by `/`;
//! nothing here looks at the file system or interprets `.` and `..`.

use vstd::prelude::*;
use vstd::string::*;

verus! {

/// The number of times `c` stands at the start of `s` before another
/// character, or the end, follows.
pub open spec fn leading(s: Seq<char>, c: char) -> nat
    decreases s.len(),
{
    if s.len() > 0 && s[0] == c {
        1 + leading(s.skip(1), c)
    } else {
        0
    }
}

/// `s` without the run of `c` at its start.
pub open spec fn trim_start(s: Seq<char>, c: char) -> Seq<char> {
    s.skip(leading(s, c) as int)
}

/// What is left of `path` once the prefix `root` and the separators
/// after it are taken away: first every leading `\`, then every leading
/// `/`. `None` when `path` does not start with `root`.
pub open spec fn relative_to(path: Seq<char>, root: Seq<char>) -> Option<Seq<char>> {
    if root.is_prefix_of(path) {
        Some(trim_start(trim_start(path.skip(root.len() as int), '\\'), '/'))
    } else {
        None
    }
}

/// `rel` placed under `base`: the two are put together with one `/`
/// between them, unless `base` is empty or already ends in `/`.
pub open spec fn join(base: Seq<char>, rel: Seq<char>) -> Seq<char> {
    if base.len() == 0 || base.last() == '/' {
        base + rel
    } else {
        base + seq!['/'] + rel
    }
}

/// `leading(s, c)` is the length of the longest run of `c` that `s` starts
/// with.
pub proof fn lemma_leading(s: Seq<char>, c: char)
    ensures
        leading(s, c) <= s.len(),
        forall|i: int| 0 <= i < leading(s, c) ==> s[i] == c,
        leading(s, c) < s.len() ==> s[leading(s, c) as int] != c,
    decreases s.len(),
{
    if s.len() > 0 && s[0] == c {
        let rest = s.skip(1);
        lemma_leading(rest, c);
        assert forall|i: int| 0 <= i < leading(s, c) implies s[i] == c by {
            if i > 0 {
                assert(rest[i - 1] == s[i]);
            }
        }
        if leading(s, c) < s.len() {
            assert(rest[leading(rest, c) as int] == s[leading(s, c) as int]);
        }
    }
}

/// A run of `c` at the start of `s` that is followed by another character,
/// or by the end, is the whole leading run.
pub proof fn lemma_leading_is(s: Seq<char>, c: char, k: int)
    requires
        0 <= k <= s.len(),
        forall|i: int| 0 <= i < k ==> s[i] == c,
        k < s.len() ==> s[k] != c,
    ensures
        leading(s, c) == k,
    decreases s.len(),
{
    if k > 0 {
        let rest = s.skip(1);
        assert forall|i: int| 0 <= i < k - 1 implies rest[i] == c by {
            assert(rest[i] == s[i + 1]);
        }
        if k - 1 < rest.len() {
            assert(rest[k - 1] == s[k]);
        }
        lemma_leading_is(rest, c, k - 1);
    }
}

/// A relative path is the end of the path it was taken from, and it does
/// not start with `/`: placed under a base, it stays under it.
pub proof fn lemma_relative_is_rest(path: Seq<char>, root: Seq<char>)
    ensures
        relative_to(path, root) matches Some(relative) ==> relative.is_suffix_of(path) && (
        relative.len() > 0 ==> relative[0] != '/'),
{
    if root.is_prefix_of(path) {
        let rest = path.skip(root.len() as int);
        let trimmed = trim_start(rest, '\\');
        let relative = trim_start(trimmed, '/');
        lemma_leading(rest, '\\');
        lemma_leading(trimmed, '/');
        assert(relative == path.skip(path.len() - relative.len()));
    }
}

/// The position behind the last `/` of `s`: 0 when it has none.
pub open spec fn after_last_slash(s: Seq<char>) -> int
    decreases s.len(),
{
    if s.len() == 0 {
        0
    } else if s.last() == '/' {
        s.len() as int
    } else {
        after_last_slash(s.drop_last())
    }
}

/// The last segment of a path: what follows its last `/`, and the whole
/// path when it has none. It is empty for a path that ends in `/`.
pub open spec fn last_segment(path: Seq<char>) -> Seq<char> {
    path.skip(after_last_slash(path))
}

/// A position is the one behind the last `/` when a `/` stands before it,
/// or it is 0, and none follows.
pub proof fn lemma_after_last_slash_is(s: Seq<char>, k: int)
    requires
        0 <= k <= s.len(),
        k == 0 || s[k - 1] == '/',
        forall|i: int| k <= i < s.len() ==> s[i] != '/',
    ensures
        after_last_slash(s) == k,
    decreases s.len(),
{
    if s.len() > 0 && s.last() != '/' {
        lemma_after_last_slash_is(s.drop_last(), k);
    }
}

/// The last segment holds no `/`, and the path ends with it.
pub proof fn lemma_last_segment(path: Seq<char>)
    ensures
        0 <= after_last_slash(path) <= path.len(),
        last_segment(path).is_suffix_of(path),
        forall|i: int| 0 <= i < last_segment(path).len() ==> last_segment(path)[i] != '/',
    decreases path.len(),
{
    if path.len() > 0 && path.last() != '/' {
        let front = path.drop_last();
        lemma_last_segment(front);
        let k = after_last_slash(path);
        assert forall|i: int| 0 <= i < last_segment(path).len() implies last_segment(path)[i]
            != '/' by {
            if k + i < front.len() {
                assert(last_segment(front)[i] == path[k + i]);
            }
        }
    }
    let name = last_segment(path);
    assert(name == path.skip(path.len() - name.len()));
}

/// Counts the run of `c` at the start of `s`.
fn count_leading(s: &str, c: char) -> (k: usize)
    ensures
        k == leading(s@, c),
{
    let n = s.unicode_len();
    let mut k: usize = 0;
    while k < n && s.get_char(k) == c
        invariant
            n == s@.len(),
            k <= n,
            forall|i: int| 0 <= i < k ==> s@[i] == c,
        decreases n - k,
    {
        k += 1;
    }
    proof {
        lemma_leading_is(s@, c, k as int);
    }
    k
}

/// Whether `path` starts with `prefix`.
pub fn starts_with(path: &str, prefix: &str) -> (r: bool)
    ensures
        r == prefix@.is_prefix_of(path@),
{
    let n = prefix.unicode_len();
    if n > path.unicode_len() {
        return false;
    }
    let mut i: usize = 0;
    while i < n
        invariant
            n == prefix@.len(),
            n <= path@.len(),
            i <= n,
            forall|j: int| 0 <= j < i ==> path@[j] == prefix@[j],
        decreases n - i,
    {
        if path.get_char(i) != prefix.get_char(i) {
            assert(path@.subrange(0, n as int)[i as int] != prefix@[i as int]);
            return false;
        }
        i += 1;
    }
    assert(path@.subrange(0, n as int) =~= prefix@);
    true
}

/// The path of an entry relative to the root it was found under.
pub fn relative_path(path: &str, root: &str) -> (r: Option<String>)
    ensures
        match r {
            Some(rel) => relative_to(path@, root@) == Some(rel@),
            None => relative_to(path@, root@).is_none(),
        },
{
    if !starts_with(path, root) {
        return None;
    }
    let n = path.unicode_len();
    let rest = path.substring_char(root.unicode_len(), n);
    assert(rest@ == path@.skip(root@.len() as int));
    proof {
        lemma_leading(rest@, '\\');
    }
    let a = count_leading(rest, '\\');
    let rest = rest.substring_char(a, rest.unicode_len());
    proof {
        lemma_leading(rest@, '/');
    }
    let b = count_leading(rest, '/');
    let rest = rest.substring_char(b, rest.unicode_len());
    Some(rest.to_owned())
}

/// The last segment of a path.
pub fn file_name(path: &str) -> (r: String)
    ensures
        r@ == last_segment(path@),
{
    let n = path.unicode_len();
    let mut k: usize = n;
    while k > 0 && path.get_char(k - 1) != '/'
        invariant
            n == path@.len(),
            k <= n,
            forall|i: int| k <= i < n ==> path@[i] != '/',
        decreases k,
    {
        k -= 1;
    }
    proof {
        lemma_after_last_slash_is(path@, k as int);
    }
    path.substring_char(k, n).to_owned()
}

/// Places `rel` under `base`.
pub fn join_path(base: &str, rel: &str) -> (r: String)
    ensures
        r@ == join(base@, rel@),
{
    let n = base.unicode_len();
    let joined = base.to_owned();
    if n == 0 || base.get_char(n - 1) == '/' {
        joined.concat(rel)
    } else {
        proof {
            reveal_strlit("/");
            assert("/"@ =~= seq!['/']);
        }
        joined.concat("/").concat(rel)
    }
}

/// A joined path lies under its base: it starts with the base, whatever is
/// placed under it.
pub proof fn lemma_join_under_base(base: Seq<char>, rel: Seq<char>)
    ensures
        base.is_prefix_of(join(base, rel)),
        rel.is_suffix_of(join(base, rel)),
{
    let j = join(base, rel);
    assert(j.subrange(0, base.len() as int) =~= base);
    assert(j.subrange(j.len() - rel.len(), j.len() as int) =~= rel);
}

/// Taking a joined path apart gives back what was joined: when `rel` does
/// not start with a separator, `rel` is the path of `join(root, rel)`
/// relative to `root`.
pub proof fn lemma_relative_of_join(root: Seq<char>, rel: Seq<char>)
    requires
        rel.len() > 0 ==> rel[0] != '/' && rel[0] != '\\',
    ensures
        relative_to(join(root, rel), root) == Some(rel),
{
    let path = join(root, rel);
    lemma_join_under_base(root, rel);
    let rest = path.skip(root.len() as int);
    if root.len() == 0 || root.last() == '/' {
        assert(rest =~= rel);
        lemma_leading_is(rest, '\\', 0);
        assert(rest.skip(0) =~= rest);
        lemma_leading_is(rest, '/', 0);
    } else {
        assert(rest =~= seq!['/'] + rel);
        lemma_leading_is(rest, '\\', 0);
        assert(rest.skip(0) =~= rest);
        lemma_leading_is(rest, '/', 1);
        assert(rest.skip(1) =~= rel);
    }
}

} // verus!
