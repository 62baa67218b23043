//! Paths, written as text with `/` between components, read as
//! `std::path::Path` reads them on Unix: empty and `.` components after the
//! first are skipped, a leading `/` is the root and a leading `.` the
//! current directory.

use vstd::prelude::*;

use crate::text::{chars_of, concat, owned, string_from_chars};

verus! {

/// Index of the last occurrence of `c` in `p`, or -1.
pub open spec fn last_index_of(p: Seq<char>, c: char) -> int
    decreases p.len(),
{
    if p.len() == 0 {
        -1
    } else if p.last() == c {
        p.len() - 1
    } else {
        last_index_of(p.drop_last(), c)
    }
}

/// The length of what stands before a path's first component: a leading
/// `/` (the root), or a leading `.` that is the whole path or is followed by
/// `/` (the current directory).
pub open spec fn head_len(p: Seq<char>) -> int {
    if p.len() > 0 && (p[0] == '/' || (p[0] == '.' && (p.len() == 1 || p[1] == '/'))) {
        1
    } else {
        0
    }
}

/// `q` without its trailing empty and `.` components, leaving its first `b`
/// characters in place.
pub open spec fn trim_back(q: Seq<char>, b: int) -> Seq<char>
    decreases q.len(),
{
    if q.len() > 0 && q.len() > b && (q.last() == '/' || (q.last() == '.' && (q.len() - 1 == b || q[q.len() - 2] == '/'))) {
        trim_back(q.drop_last(), b)
    } else {
        q
    }
}

/// The parent directory of a path, if it has a non-empty one: the path
/// without its last component and the separators and `.` components before
/// it, as `Path::parent` gives it. A path whose last component is the root
/// or the current directory, or that has a single relative component, has
/// none.
pub open spec fn parent_text(p: Seq<char>) -> Option<Seq<char>> {
    let b = head_len(p);
    let t = trim_back(p, b);
    if t.len() <= b {
        None
    } else {
        let i = last_index_of(t, '/');
        let cut = if i >= b {
            i
        } else {
            b
        };
        let r = trim_back(t.take(cut), b);
        if r.len() == 0 {
            None
        } else {
            Some(r)
        }
    }
}

/// The `n`-th parent of a path: the path itself for `n == 0`.
pub open spec fn nth_parent(p: Seq<char>, n: nat) -> Option<Seq<char>>
    decreases n,
{
    if n == 0 {
        Some(p)
    } else {
        match nth_parent(p, (n - 1) as nat) {
            Some(q) => parent_text(q),
            None => None,
        }
    }
}

/// `d` is one of the directories that contain `p`: its parent, the parent
/// of that, and so on.
pub open spec fn is_directory_of(d: Seq<char>, p: Seq<char>) -> bool {
    exists|n: nat| n >= 1 && #[trigger] nth_parent(p, n) == Some(d)
}

/// Trimming keeps a prefix of the text.
pub proof fn lemma_trim_back(q: Seq<char>, b: int)
    ensures
        trim_back(q, b).len() <= q.len(),
        trim_back(q, b) == q.take(trim_back(q, b).len() as int),
        q.len() > b ==> trim_back(q, b).len() >= b,
    decreases q.len(),
{
    if q.len() > 0 && q.len() > b && (q.last() == '/' || (q.last() == '.' && (q.len() - 1 == b || q[q.len() - 2] == '/'))) {
        lemma_trim_back(q.drop_last(), b);
        assert(q.drop_last().take(trim_back(q, b).len() as int) =~= q.take(trim_back(q, b).len() as int));
    } else {
        assert(q.take(q.len() as int) =~= q);
    }
}

/// A parent is shorter than its path.
pub proof fn lemma_parent_shorter(p: Seq<char>)
    ensures
        parent_text(p) matches Some(r) ==> r.len() < p.len(),
{
    let b = head_len(p);
    lemma_trim_back(p, b);
    let t = trim_back(p, b);
    if t.len() > b {
        lemma_last_index_of(t, '/');
        let i = last_index_of(t, '/');
        let cut = if i >= b {
            i
        } else {
            b
        };
        lemma_trim_back(t.take(cut), b);
    }
}

/// Once a path has no further parent, none follows.
pub proof fn lemma_nth_parent_none(p: Seq<char>, n: nat, m: nat)
    requires
        n <= m,
        nth_parent(p, n) is None,
    ensures
        nth_parent(p, m) is None,
    decreases m - n,
{
    if n < m {
        lemma_nth_parent_none(p, n, (m - 1) as nat);
    }
}

/// `name` occurs in `p` as a whole component, between `/` or the ends.
pub open spec fn has_component(p: Seq<char>, name: Seq<char>) -> bool {
    exists|i: int|
        0 <= i && i + name.len() <= p.len() && #[trigger] p.subrange(i, i + name.len()) == name
            && (i == 0 || p[i - 1] == '/') && (i + name.len() == p.len() || p[i + name.len()]
            == '/')
}

/// Lockfiles, and paths under a `generated`, `target`, `vendor` or
/// `node_modules` directory component, are shown with reduced emphasis.
pub open spec fn is_reduced_emphasis_path(p: Seq<char>) -> bool {
    ||| p == "Cargo.lock"@
    ||| p == "package-lock.json"@
    ||| has_component(p, "generated"@)
    ||| has_component(p, "target"@)
    ||| has_component(p, "vendor"@)
    ||| has_component(p, "node_modules"@)
}

pub proof fn lemma_last_index_of(p: Seq<char>, c: char)
    ensures
        -1 <= last_index_of(p, c) < p.len(),
        last_index_of(p, c) >= 0 ==> p[last_index_of(p, c)] == c,
        forall|j: int| last_index_of(p, c) < j < p.len() ==> p[j] != c,
    decreases p.len(),
{
    if p.len() > 0 && p.last() != c {
        lemma_last_index_of(p.drop_last(), c);
        assert forall|j: int| last_index_of(p, c) < j < p.len() implies p[j] != c by {
            if j < p.len() - 1 {
                assert(p[j] == p.drop_last()[j]);
            }
        }
    }
}

/// Index of the last `/` among the first `n` characters, if any.
fn last_slash(v: &Vec<char>, n: usize) -> (k: Option<usize>)
    requires
        n <= v.len(),
    ensures
        k is None ==> last_index_of(v@.take(n as int), '/') == -1,
        k matches Some(i) ==> i == last_index_of(v@.take(n as int), '/'),
{
    let mut i: usize = n;
    while i > 0
        invariant
            i <= n <= v.len(),
            last_index_of(v@.take(n as int), '/') == last_index_of(v@.take(i as int), '/'),
        decreases i,
    {
        if v[i - 1] == '/' {
            assert(v@.take(i as int).last() == '/');
            return Some(i - 1);
        }
        assert(v@.take(i as int).drop_last() =~= v@.take(i - 1));
        i = i - 1;
    }
    assert(v@.take(0) =~= Seq::<char>::empty());
    None
}

/// The length of `trim_back` of the first `n` characters.
fn trim_back_len(v: &Vec<char>, n: usize, b: usize) -> (m: usize)
    requires
        n <= v.len(),
    ensures
        m <= n,
        v@.take(m as int) == trim_back(v@.take(n as int), b as int),
{
    let mut m: usize = n;
    while m > b && (v[m - 1] == '/' || (v[m - 1] == '.' && (m - 1 == b || v[m - 2] == '/')))
        invariant
            m <= n <= v.len(),
            trim_back(v@.take(n as int), b as int) == trim_back(v@.take(m as int), b as int),
        decreases m,
    {
        assert(v@.take(m as int).drop_last() =~= v@.take(m - 1));
        assert(v@.take(m as int).last() == v@[m - 1]);
        if m >= 2 {
            assert(v@.take(m as int)[m - 2] == v@[m - 2]);
        }
        m = m - 1;
    }
    assert(m > 0 ==> v@.take(m as int).last() == v@[m - 1]);
    assert(m >= 2 ==> v@.take(m as int)[m - 2] == v@[m - 2]);
    m
}

/// Returns the first `n` characters of `v` as a `String`.
pub(crate) fn prefix_string(v: &Vec<char>, n: usize) -> (r: String)
    requires
        n <= v.len(),
    ensures
        r@ == v@.take(n as int),
{
    let mut prefix: Vec<char> = Vec::new();
    for i in 0..n
        invariant
            n <= v.len(),
            prefix@ == v@.take(i as int),
    {
        prefix.push(v[i]);
        assert(v@.take(i + 1) == v@.take(i as int).push(v@[i as int]));
    }
    string_from_chars(&prefix)
}

/// Returns the parent directory of a path, when it has a non-empty one.
pub fn parent_directory_path(path: &str) -> (r: Option<String>)
    ensures
        r.is_some() == parent_text(path@).is_some(),
        r matches Some(d) ==> d@ == parent_text(path@).unwrap(),
{
    let v = chars_of(path);
    assert(v@.take(v.len() as int) =~= v@);
    let b: usize = if v.len() > 0 && (v[0] == '/' || (v[0] == '.' && (v.len() == 1 || v[1] == '/'))) {
        1
    } else {
        0
    };
    assert(b == head_len(path@));
    let n = trim_back_len(&v, v.len(), b);
    let ghost t = trim_back(path@, b as int);
    assert(t == v@.take(n as int));
    if n <= b {
        return None;
    }
    let cut = match last_slash(&v, n) {
        Some(i) => if i >= b {
            i
        } else {
            b
        },
        None => b,
    };
    proof {
        lemma_last_index_of(t, '/');
        assert(v@.take(n as int).take(cut as int) =~= v@.take(cut as int));
    }
    let m = trim_back_len(&v, cut, b);
    if m == 0 {
        return None;
    }
    Some(prefix_string(&v, m))
}

/// `name` appended to directory `dir` as a further component: a name that
/// starts with `/` stands alone, an empty directory adds nothing, and a `/`
/// separates the two unless the directory already ends with one.
pub open spec fn join_path(dir: Seq<char>, name: Seq<char>) -> Seq<char> {
    if name.len() > 0 && name[0] == '/' {
        name
    } else if dir.len() == 0 {
        name
    } else if dir.last() == '/' {
        dir + name
    } else {
        dir + seq!['/'] + name
    }
}

/// Joining names that start alike to one directory gives the same path
/// only for the same name.
pub proof fn lemma_join_path_names(dir: Seq<char>, a: Seq<char>, b: Seq<char>)
    requires
        a.len() > 0,
        b.len() > 0,
        a[0] == b[0],
        join_path(dir, a) == join_path(dir, b),
    ensures
        a == b,
{
    if a[0] == '/' || dir.len() == 0 {
    } else if dir.last() == '/' {
        assert(a =~= (dir + a).skip(dir.len() as int));
        assert(b =~= (dir + b).skip(dir.len() as int));
    } else {
        assert(a =~= (dir + seq!['/'] + a).skip(dir.len() as int + 1));
        assert(b =~= (dir + seq!['/'] + b).skip(dir.len() as int + 1));
    }
}

/// Appends `name` to directory `dir` as a further path component.
pub fn join(dir: &str, name: &str) -> (r: String)
    ensures
        r@ == join_path(dir@, name@),
{
    let d = chars_of(dir);
    let n = chars_of(name);
    if n.len() > 0 && n[0] == '/' {
        return owned(name);
    }
    if d.len() == 0 {
        return owned(name);
    }
    if d[d.len() - 1] == '/' {
        return concat(dir, name);
    }
    let with_slash = concat(dir, "/");
    proof {
        reveal_strlit("/");
    }
    let r = concat(with_slash.as_str(), name);
    assert(r@ =~= dir@ + seq!['/'] + name@);
    r
}

} // verus!
