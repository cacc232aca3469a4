//! Absolute, slash-separated paths as the WebDAV layer hands them over.
use vstd::prelude::*;

use crate::text::{chars_of, push_all, starts_with, starts_with_exec};

verus! {

/// An absolute path: a leading `/`, and no trailing `/` unless it is `/` itself.
pub open spec fn is_abs_path(p: Seq<char>) -> bool {
    p.len() >= 1 && p[0] == '/' && (p.len() == 1 || p.last() != '/')
}

pub open spec fn root_path() -> Seq<char> {
    seq!['/']
}

/// Whether `p` lies at or below `root`, component by component.
pub open spec fn is_under(p: Seq<char>, root: Seq<char>) -> bool {
    root == root_path() || p == root || starts_with(p, root.push('/'))
}

/// Where a request path lands once the configured root is applied: a path already under
/// the root stays as it is; any other one is taken relative to the root.
pub open spec fn normalized(root: Seq<char>, p: Seq<char>) -> Seq<char> {
    if is_under(p, root) {
        p
    } else if p == root_path() {
        root
    } else {
        root + p
    }
}

/// Index of the last `/` in `p` (at or after index 0).
pub open spec fn last_slash(p: Seq<char>) -> int
    decreases p.len(),
{
    if p.len() == 0 {
        -1
    } else if p.last() == '/' {
        p.len() - 1
    } else {
        last_slash(p.drop_last())
    }
}

/// The directory that holds `p`; the root has none.
pub open spec fn parent_of(p: Seq<char>) -> Option<Seq<char>> {
    if p.len() <= 1 {
        None
    } else if last_slash(p) <= 0 {
        Some(root_path())
    } else {
        Some(p.subrange(0, last_slash(p)))
    }
}

/// The last component of `p`; the root has none.
pub open spec fn file_name_of(p: Seq<char>) -> Option<Seq<char>> {
    if p.len() <= 1 {
        None
    } else {
        Some(p.subrange(last_slash(p) + 1, p.len() as int))
    }
}

/// `dir` joined with one more component.
pub open spec fn child_of(dir: Seq<char>, name: Seq<char>) -> Seq<char> {
    if dir == root_path() {
        dir + name
    } else {
        dir.push('/') + name
    }
}

/// `s` without its trailing `/`, keeping at least one character.
pub open spec fn strip_trailing_slashes(s: Seq<char>) -> Seq<char>
    decreases s.len(),
{
    if s.len() > 1 && s.last() == '/' {
        strip_trailing_slashes(s.drop_last())
    } else {
        s
    }
}

/// A root as configured: `/` is put in front of a relative one and trailing `/` are dropped.
pub open spec fn root_from(s: Seq<char>) -> Seq<char> {
    if s.len() == 0 || s[0] != '/' {
        strip_trailing_slashes(seq!['/'] + s)
    } else {
        strip_trailing_slashes(s)
    }
}

pub proof fn lemma_last_slash_bounds(p: Seq<char>)
    ensures
        -1 <= last_slash(p) < p.len(),
        last_slash(p) >= 0 ==> p[last_slash(p)] == '/',
        forall|i: int| last_slash(p) < i < p.len() ==> p[i] != '/',
    decreases p.len(),
{
    if p.len() > 0 && p.last() != '/' {
        lemma_last_slash_bounds(p.drop_last());
        assert forall|i: int| last_slash(p) < i < p.len() implies p[i] != '/' by {
            if i < p.len() - 1 {
                assert(p.drop_last()[i] == p[i]);
            }
        }
    }
}

/// Index of the last `/`, if there is one.
pub fn last_slash_exec(p: &Vec<char>) -> (r: Option<usize>)
    ensures
        match r {
            Some(i) => i as int == last_slash(p@),
            None => last_slash(p@) == -1,
        },
{
    let mut i: usize = p.len();
    assert(p@.subrange(0, i as int) =~= p@);
    while i > 0
        invariant
            i <= p@.len(),
            last_slash(p@) == last_slash(p@.subrange(0, i as int)),
        decreases i,
    {
        assert(p@.subrange(0, i as int).drop_last() =~= p@.subrange(0, i - 1));
        if p[i - 1] == '/' {
            return Some(i - 1);
        }
        i = i - 1;
    }
    None
}

/// The parent directory of `p`, as `Path::parent` gives it for an absolute path.
pub fn parent_path(p: &Vec<char>) -> (r: Option<Vec<char>>)
    ensures
        match r {
            Some(v) => parent_of(p@) == Some(v@),
            None => parent_of(p@) is None,
        },
{
    if p.len() <= 1 {
        return None;
    }
    proof {
        lemma_last_slash_bounds(p@);
    }
    match last_slash_exec(p) {
        Some(k) if k > 0 => {
            let mut v: Vec<char> = Vec::new();
            let mut i: usize = 0;
            while i < k
                invariant
                    k < p@.len(),
                    i <= k,
                    v@ == p@.subrange(0, i as int),
                decreases k - i,
            {
                v.push(p[i]);
                i = i + 1;
                assert(v@ =~= p@.subrange(0, i as int));
            }
            Some(v)
        },
        _ => {
            let mut v: Vec<char> = Vec::new();
            v.push('/');
            assert(v@ =~= root_path());
            Some(v)
        },
    }
}

/// The last component of `p`, as `Path::file_name` gives it for an absolute path.
pub fn file_name(p: &Vec<char>) -> (r: Option<Vec<char>>)
    ensures
        match r {
            Some(v) => file_name_of(p@) == Some(v@),
            None => file_name_of(p@) is None,
        },
{
    if p.len() <= 1 {
        return None;
    }
    proof {
        lemma_last_slash_bounds(p@);
    }
    let start: usize = match last_slash_exec(p) {
        Some(k) => k + 1,
        None => 0,
    };
    let mut v: Vec<char> = Vec::new();
    let mut i: usize = start;
    while i < p.len()
        invariant
            start <= i <= p@.len(),
            v@ == p@.subrange(start as int, i as int),
        decreases p.len() - i,
    {
        v.push(p[i]);
        i = i + 1;
        assert(v@ =~= p@.subrange(start as int, i as int));
    }
    Some(v)
}

/// `dir` joined with the component `name`.
pub fn child_path(dir: &Vec<char>, name: &Vec<char>) -> (r: Vec<char>)
    ensures
        r@ == child_of(dir@, name@),
{
    let mut v = dir.clone();
    let is_root = dir.len() == 1 && dir[0] == '/';
    if !is_root {
        v.push('/');
    }
    push_all(&mut v, name);
    proof {
        if is_root {
            assert(dir@ =~= root_path());
        } else {
            assert(dir@ != root_path());
        }
    }
    v
}

/// Whether `p` lies at or below `root`.
pub fn is_under_exec(p: &Vec<char>, root: &Vec<char>) -> (r: bool)
    ensures
        r == is_under(p@, root@),
{
    if root.len() == 1 && root[0] == '/' {
        assert(root@ =~= root_path());
        return true;
    }
    assert(root@ != root_path());
    if p.len() == root.len() && starts_with_exec(p, root) {
        assert(p@.subrange(0, root@.len() as int) =~= p@);
        return true;
    }
    let mut with_slash = root.clone();
    with_slash.push('/');
    let r = starts_with_exec(p, &with_slash);
    proof {
        if p@ == root@ {
            assert(p@.subrange(0, root@.len() as int) =~= p@);
        }
    }
    r
}

/// The configured root in its normal form.
pub fn root_from_exec(s: &str) -> (r: Vec<char>)
    ensures
        r@ == root_from(s@),
        is_abs_path(r@),
{
    let cs = chars_of(s);
    let mut v: Vec<char> = Vec::new();
    if cs.len() == 0 || cs[0] != '/' {
        v.push('/');
    }
    push_all(&mut v, &cs);
    proof {
        if cs@.len() == 0 || cs@[0] != '/' {
            assert(v@ =~= seq!['/'] + s@);
        } else {
            assert(v@ =~= s@);
        }
    }
    while v.len() > 1 && v[v.len() - 1] == '/'
        invariant
            v@.len() >= 1,
            v@[0] == '/',
            strip_trailing_slashes(v@) == root_from(s@),
        decreases v.len(),
    {
        v.pop();
        assert(v@.len() >= 1);
    }
    v
}

/// A request path with the configured root applied.
pub fn normalize_path(root: &Vec<char>, p: &Vec<char>) -> (r: Vec<char>)
    ensures
        r@ == normalized(root@, p@),
{
    if is_under_exec(p, root) {
        p.clone()
    } else if p.len() == 1 && p[0] == '/' {
        assert(p@ =~= root_path());
        root.clone()
    } else {
        assert(p@ != root_path());
        let mut v = root.clone();
        push_all(&mut v, p);
        v
    }
}

/// Applying the root lands under the root, keeps the path absolute, and applying it again
/// changes nothing.
pub proof fn lemma_normalize_idempotent(root: Seq<char>, p: Seq<char>)
    requires
        is_abs_path(root),
        is_abs_path(p),
    ensures
        is_abs_path(normalized(root, p)),
        is_under(normalized(root, p), root),
        normalized(root, normalized(root, p)) == normalized(root, p),
{
    if !is_under(p, root) && p != root_path() {
        let q = root + p;
        assert(root != root_path());
        assert(q.subrange(0, root.len() + 1int) =~= root.push('/'));
        assert(q.last() == p.last());
        assert(q[0] == root[0]);
        if p.len() == 1 {
            assert(p =~= root_path());
        }
        assert(q.len() > 1);
        assert(q[q.len() - 1] == p[p.len() - 1]);
        assert(is_abs_path(q));
        assert(is_under(q, root));
    }
}

} // verus!
