//! A plain-string model of file-system paths, with `/` as the separator.
//!
//! The engine never touches the disk, so a path is just the string the caller
//! hands over: components separated by `/`, an optional leading `/` for
//! absolute paths, and no trailing slash on file paths. The operations here
//! mirror the usual conventions: the parent of `a/b/c` is `a/b`, the parent
//! of `a` is the empty string, and the empty string and `/` have no parent.

use vstd::prelude::*;

verus! {

/// Index of the last `/` strictly before position `i`, or `-1` if there is
/// none.
pub open spec fn last_slash_before(p: Seq<char>, i: int) -> int
    decreases i,
{
    if i <= 0 || i > p.len() {
        -1
    } else if p[i - 1] == '/' {
        i - 1
    } else {
        last_slash_before(p, i - 1)
    }
}

/// Index of the last `/` in `p`, or `-1` if there is none.
pub open spec fn last_slash(p: Seq<char>) -> int {
    last_slash_before(p, p.len() as int)
}

/// The parent directory of a path: everything before the last `/`. The empty
/// path and the root `/` have none; a bare file name's parent is the empty
/// path.
pub open spec fn spec_parent(p: Seq<char>) -> Option<Seq<char>> {
    if p.len() == 0 {
        None
    } else if p.len() == 1 && p[0] == '/' {
        None
    } else if last_slash(p) == -1 {
        Some(Seq::empty())
    } else if last_slash(p) == 0 {
        Some(seq!['/'])
    } else {
        Some(p.subrange(0, last_slash(p)))
    }
}

/// Appending a file name to a directory path.
pub open spec fn spec_join(d: Seq<char>, f: Seq<char>) -> Seq<char> {
    if d.len() == 0 {
        f
    } else if d[d.len() - 1] == '/' {
        d + f
    } else {
        d + seq!['/'] + f
    }
}

/// `pre` is a prefix of `s`.
pub open spec fn is_prefix(pre: Seq<char>, s: Seq<char>) -> bool {
    pre.len() <= s.len() && s.subrange(0, pre.len() as int) == pre
}

/// `base` written as a directory prefix: with exactly one trailing `/`.
pub open spec fn dir_prefix(base: Seq<char>) -> Seq<char> {
    if base.len() > 0 && base[base.len() - 1] == '/' {
        base
    } else {
        base + seq!['/']
    }
}

/// `p` is `base` itself or lies somewhere beneath it.
pub open spec fn path_within(p: Seq<char>, base: Seq<char>) -> bool {
    p == base || is_prefix(dir_prefix(base), p)
}

/// Some path component of `p` strictly below `root` starts with a dot.
pub open spec fn hidden_below(root: Seq<char>, p: Seq<char>) -> bool {
    p != root && exists|i: int|
        dir_prefix(root).len() <= i < p.len() && (i == dir_prefix(root).len() || p[i - 1] == '/')
            && #[trigger] p[i] == '.'
}

/// The file name (the last component) is `<stem>.rs` with a non-empty stem.
pub open spec fn is_rust_file(p: Seq<char>) -> bool {
    let lc = last_slash(p) + 1;
    &&& p.len() - lc > 3
    &&& p[p.len() - 3] == '.'
    &&& p[p.len() - 2] == 'r'
    &&& p[p.len() - 1] == 's'
}

proof fn lemma_last_slash_before(p: Seq<char>, i: int)
    ensures
        -1 <= last_slash_before(p, i),
        last_slash_before(p, i) >= 0 ==> last_slash_before(p, i) < i && p[last_slash_before(p, i)]
            == '/',
    decreases i,
{
    if i <= 0 || i > p.len() {
    } else if p[i - 1] == '/' {
    } else {
        lemma_last_slash_before(p, i - 1);
    }
}

/// A path's parent, where it has one, is strictly shorter than the path:
/// the upward walk terminates.
pub proof fn lemma_parent_shorter(p: Seq<char>)
    ensures
        spec_parent(p) is Some ==> spec_parent(p)->Some_0.len() < p.len(),
{
    lemma_last_slash_before(p, p.len() as int);
}

/// Character-wise string equality.
pub fn str_eq(a: &str, b: &str) -> (r: bool)
    ensures
        r == (a@ == b@),
{
    let n = a.unicode_len();
    if n != b.unicode_len() {
        return false;
    }
    let mut k: usize = 0;
    while k < n
        invariant
            k <= n,
            n == a@.len(),
            n == b@.len(),
            forall|j: int| 0 <= j < k ==> a@[j] == b@[j],
        decreases n - k,
    {
        if a.get_char(k) != b.get_char(k) {
            return false;
        }
        k = k + 1;
    }
    proof {
        assert(a@ =~= b@);
    }
    true
}

/// Whether `pre` is a prefix of `p`, character by character.
pub fn has_prefix(p: &str, pre: &str) -> (r: bool)
    ensures
        r == is_prefix(pre@, p@),
{
    let n = p.unicode_len();
    let m = pre.unicode_len();
    if m > n {
        return false;
    }
    let mut k: usize = 0;
    while k < m
        invariant
            k <= m <= n,
            n == p@.len(),
            m == pre@.len(),
            forall|j: int| 0 <= j < k ==> p@[j] == pre@[j],
        decreases m - k,
    {
        if p.get_char(k) != pre.get_char(k) {
            proof {
                assert(p@.subrange(0, m as int)[k as int] == p@[k as int]);
            }
            return false;
        }
        k = k + 1;
    }
    proof {
        assert(p@.subrange(0, m as int) =~= pre@);
    }
    true
}

/// Start index of the file name: one past the last `/`, or `0`.
fn file_name_start(p: &str) -> (r: usize)
    ensures
        r as int == last_slash(p@) + 1,
        r <= p@.len(),
{
    let n = p.unicode_len();
    let mut i = n;
    while i > 0 && p.get_char(i - 1) != '/'
        invariant
            i <= n,
            n == p@.len(),
            last_slash_before(p@, n as int) == last_slash_before(p@, i as int),
        decreases i,
    {
        i = i - 1;
    }
    i
}

/// The parent directory of `p`, or `None` for the empty path and the root.
pub fn parent_of(p: &str) -> (r: Option<String>)
    ensures
        (r is Some) == (spec_parent(p@) is Some),
        r is Some ==> r->Some_0@ == spec_parent(p@)->Some_0,
{
    let n = p.unicode_len();
    if n == 0 {
        return None;
    }
    if n == 1 && p.get_char(0) == '/' {
        return None;
    }
    let fs = file_name_start(p);
    if fs == 0 {
        Some(String::new())
    } else if fs == 1 {
        let r = String::from_str("/");
        proof {
            reveal_strlit("/");
            assert(r@ =~= seq!['/']);
        }
        Some(r)
    } else {
        Some(String::from_str(p.substring_char(0, fs - 1)))
    }
}

/// Joins a directory path and a file name with a `/`.
pub fn join_path(d: &str, f: &str) -> (r: String)
    ensures
        r@ == spec_join(d@, f@),
{
    let n = d.unicode_len();
    if n == 0 {
        String::from_str(f)
    } else if d.get_char(n - 1) == '/' {
        let mut s = String::from_str(d);
        s.append(f);
        s
    } else {
        let mut s = String::from_str(d);
        s.append("/");
        s.append(f);
        proof {
            reveal_strlit("/");
            assert(s@ =~= d@ + seq!['/'] + f@);
        }
        s
    }
}

/// Whether `p` is `base` itself or lies beneath it.
pub fn path_within_exec(p: &str, base: &str) -> (r: bool)
    ensures
        r == path_within(p@, base@),
{
    if str_eq(p, base) {
        return true;
    }
    let b = base.unicode_len();
    if b > 0 && base.get_char(b - 1) == '/' {
        has_prefix(p, base)
    } else {
        let mut s = String::from_str(base);
        s.append("/");
        proof {
            reveal_strlit("/");
            assert(s@ =~= dir_prefix(base@));
        }
        has_prefix(p, s.as_str())
    }
}

/// Whether some component of `p` strictly below `root` starts with a dot.
#[verifier::rlimit(50)]
pub fn hidden_below_exec(root: &str, p: &str) -> (r: bool)
    ensures
        r == hidden_below(root@, p@),
{
    if str_eq(p, root) {
        return false;
    }
    let b = root.unicode_len();
    let n = p.unicode_len();
    let ends_slash = b > 0 && root.get_char(b - 1) == '/';
    if !ends_slash && b >= n {
        return false;
    }
    let start = if ends_slash {
        b
    } else {
        b + 1
    };
    assert(start as int == dir_prefix(root@).len());
    if start >= n {
        return false;
    }
    let mut i = start;
    while i < n
        invariant
            1 <= start <= i <= n,
            n == p@.len(),
            start as int == dir_prefix(root@).len(),
            p@ != root@,
            forall|k: int|
                start <= k < i ==> !((k == start || p@[k - 1] == '/') && #[trigger] p@[k] == '.'),
        decreases n - i,
    {
        if p.get_char(i) == '.' && (i == start || p.get_char(i - 1) == '/') {
            proof {
                assert(dir_prefix(root@).len() <= i as int && (i as int) < p@.len() && (i as int
                    == dir_prefix(root@).len() || p@[i as int - 1] == '/') && p@[i as int] == '.');
            }
            return true;
        }
        i = i + 1;
    }
    false
}

/// Whether the file name of `p` is `<stem>.rs` with a non-empty stem.
pub fn is_rust_file_exec(p: &str) -> (r: bool)
    ensures
        r == is_rust_file(p@),
{
    let n = p.unicode_len();
    let fs = file_name_start(p);
    n - fs > 3 && p.get_char(n - 3) == '.' && p.get_char(n - 2) == 'r' && p.get_char(n - 1) == 's'
}

} // verus!
