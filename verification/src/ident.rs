//! Identifiers: stable handles for workspace-relative resources.
//!
//! A path sent by the front end is resolved against the workspace root by
//! purely lexical canonicalization: the path is split at `/` separators,
//! `.` and empty components are dropped, `..` pops the previous component,
//! and popping past the workspace root is a workspace escape. The same path
//! always resolves to the same identifier.

use vstd::prelude::*;
use crate::NoleError;

verus! {

/// Index of the first `/` in `s`, or `s.len()` if there is none.
pub open spec fn first_sep(s: Seq<u8>) -> nat
    decreases s.len(),
{
    if s.len() == 0 {
        0
    } else if s[0] == 47 {
        0
    } else {
        1 + first_sep(s.skip(1))
    }
}

/// `first_sep` is pinned by its characterization: no separator before `i`,
/// and a separator (or the end) at `i`.
pub proof fn lemma_first_sep_is(s: Seq<u8>, i: int)
    requires
        0 <= i <= s.len(),
        forall|k: int| 0 <= k < i ==> s[k] != 47,
        i < s.len() ==> s[i] == 47,
    ensures
        first_sep(s) == i,
    decreases s.len(),
{
    if s.len() > 0 && s[0] != 47 {
        assert(i >= 1);
        assert forall|k: int| 0 <= k < i - 1 implies s.skip(1)[k] != 47 by {
            assert(s.skip(1)[k] == s[k + 1]);
        }
        lemma_first_sep_is(s.skip(1), i - 1);
    }
}

/// The components of `s`, split at every `/`.
pub open spec fn split_path(s: Seq<u8>) -> Seq<Seq<u8>>
    decreases s.len(),
{
    let i = first_sep(s);
    if i >= s.len() {
        seq![s]
    } else {
        seq![s.take(i as int)] + split_path(s.skip(i as int + 1))
    }
}

/// Lexical canonicalization of a component list: empty and `.` components
/// are dropped, `..` pops, and popping past the root fails.
pub open spec fn normalize(cs: Seq<Seq<u8>>) -> Option<Seq<Seq<u8>>>
    decreases cs.len(),
{
    if cs.len() == 0 {
        Some(Seq::empty())
    } else {
        match normalize(cs.drop_last()) {
            None => None,
            Some(stack) => {
                let c = cs.last();
                if c.len() == 0 || c == seq![46u8] {
                    Some(stack)
                } else if c == seq![46u8, 46u8] {
                    if stack.len() == 0 {
                        None
                    } else {
                        Some(stack.drop_last())
                    }
                } else {
                    Some(stack.push(c))
                }
            },
        }
    }
}

/// Components joined with `/` separators.
pub open spec fn join_path(cs: Seq<Seq<u8>>) -> Seq<u8>
    decreases cs.len(),
{
    if cs.len() == 0 {
        Seq::empty()
    } else if cs.len() == 1 {
        cs[0]
    } else {
        join_path(cs.drop_last()) + seq![47u8] + cs.last()
    }
}

/// The part of `path` taken relative to the workspace root: an absolute path
/// under the root is stripped of the root prefix, any other absolute path is
/// rejected, and a relative path stands as it is.
pub open spec fn spec_rel_part(workspace: Seq<u8>, path: Seq<u8>) -> Option<Seq<u8>> {
    if workspace.len() < path.len() && path.take(workspace.len() as int) == workspace && path[
        workspace.len() as int
    ] == 47 {
        Some(path.skip(workspace.len() as int + 1))
    } else if path.len() > 0 && path[0] == 47 {
        None
    } else {
        Some(path)
    }
}

/// What resolving `path` against `workspace` yields: the canonical
/// workspace-relative path bytes, or the error owed for this input.
pub open spec fn spec_resolve(workspace: Seq<u8>, path: Seq<u8>) -> Result<Seq<u8>, NoleError> {
    match spec_rel_part(workspace, path) {
        None => Err(NoleError::WorkspaceError),
        Some(rel) => match normalize(split_path(rel)) {
            None => Err(NoleError::WorkspaceError),
            Some(stack) => if stack.len() == 0 {
                Err(NoleError::NotFound)
            } else {
                Ok(join_path(stack))
            },
        },
    }
}

/// Stable handle for one workspace-relative resource: its canonical path.
#[derive(Clone, Debug)]
pub struct Identifier {
    path: Vec<u8>,
}

impl View for Identifier {
    type V = Seq<u8>;

    closed spec fn view(&self) -> Seq<u8> {
        self.path@
    }
}

impl PartialEq for Identifier {
    fn eq(&self, other: &Identifier) -> (r: bool) {
        let r = self.path == other.path;
        proof {
            if r {
                assert(self.path@ =~= other.path@);
            }
        }
        r
    }
}

impl Eq for Identifier {

}

impl vstd::std_specs::cmp::PartialEqSpecImpl for Identifier {
    open spec fn obeys_eq_spec() -> bool {
        true
    }

    open spec fn eq_spec(&self, other: &Identifier) -> bool {
        self@ == other@
    }
}

impl Identifier {
    /// The canonical workspace-relative path bytes.
    pub fn as_bytes(&self) -> (r: &Vec<u8>)
        ensures
            r@ == self@,
    {
        &self.path
    }
}

/// Copies `v[lo..hi]`.
fn subvec(v: &Vec<u8>, lo: usize, hi: usize) -> (r: Vec<u8>)
    requires
        lo <= hi <= v@.len(),
    ensures
        r@ == v@.subrange(lo as int, hi as int),
{
    let mut r: Vec<u8> = Vec::new();
    let mut i: usize = lo;
    while i < hi
        invariant
            lo <= i <= hi <= v@.len(),
            r@ =~= v@.subrange(lo as int, i as int),
        decreases hi - i,
    {
        r.push(v[i]);
        proof {
            assert(r@ =~= v@.subrange(lo as int, i + 1));
        }
        i = i + 1;
    }
    r
}

/// The views of a vector of byte vectors.
pub open spec fn views_of(cs: Seq<Vec<u8>>) -> Seq<Seq<u8>> {
    cs.map_values(|c: Vec<u8>| c@)
}

/// Splits `v` at every `/`.
fn split_components(v: &Vec<u8>) -> (r: Vec<Vec<u8>>)
    ensures
        views_of(r@) == split_path(v@),
{
    let len = v.len();
    let mut comps: Vec<Vec<u8>> = Vec::new();
    let mut start: usize = 0;
    let mut i: usize = 0;
    proof {
        assert(views_of(comps@) =~= Seq::<Seq<u8>>::empty());
        assert(v@.skip(0) =~= v@);
    }
    while i < len
        invariant
            0 <= start <= i <= len == v@.len(),
            forall|k: int| start <= k < i ==> v@[k] != 47,
            split_path(v@) =~= views_of(comps@) + split_path(v@.skip(start as int)),
        decreases len - i,
    {
        if v[i] == 47 {
            let comp = subvec(v, start, i);
            proof {
                let rest = v@.skip(start as int);
                assert forall|k: int| 0 <= k < i - start implies rest[k] != 47 by {
                    assert(rest[k] == v@[start + k]);
                }
                assert(rest[i - start] == 47);
                lemma_first_sep_is(rest, i - start);
                assert(rest.take(i - start) =~= v@.subrange(start as int, i as int));
                assert(rest.skip(i - start + 1) =~= v@.skip(i + 1));
                assert(split_path(rest) == seq![comp@] + split_path(v@.skip(i + 1)));
                assert(views_of(comps@.push(comp)) =~= views_of(comps@) + seq![comp@]);
            }
            comps.push(comp);
            start = i + 1;
        }
        i = i + 1;
    }
    let tail = subvec(v, start, len);
    proof {
        let rest = v@.skip(start as int);
        assert forall|k: int| 0 <= k < rest.len() implies rest[k] != 47 by {
            assert(rest[k] == v@[start + k]);
        }
        lemma_first_sep_is(rest, rest.len() as int);
        assert(rest =~= v@.subrange(start as int, len as int));
        assert(split_path(rest) == seq![tail@]);
        assert(views_of(comps@.push(tail)) =~= views_of(comps@) + seq![tail@]);
    }
    comps.push(tail);
    comps
}

/// A failed canonicalization of a prefix fails for the whole list.
proof fn lemma_normalize_none_extends(cs: Seq<Seq<u8>>, i: int)
    requires
        0 <= i <= cs.len(),
        normalize(cs.take(i)) is None,
    ensures
        normalize(cs) is None,
    decreases cs.len() - i,
{
    if i < cs.len() {
        assert(cs.take(i + 1).drop_last() =~= cs.take(i));
        lemma_normalize_none_extends(cs, i + 1);
    } else {
        assert(cs.take(i) =~= cs);
    }
}

/// Canonicalizes a component list; `None` is a workspace escape.
fn normalize_components(comps: Vec<Vec<u8>>) -> (r: Option<Vec<Vec<u8>>>)
    ensures
        match r {
            Some(stack) => normalize(views_of(comps@)) == Some(views_of(stack@)),
            None => normalize(views_of(comps@)) is None,
        },
{
    let n = comps.len();
    let mut stack: Vec<Vec<u8>> = Vec::new();
    let mut i: usize = 0;
    while i < n
        invariant
            0 <= i <= n == comps@.len(),
            normalize(views_of(comps@).take(i as int)) == Some(views_of(stack@)),
        decreases n - i,
    {
        let c = &comps[i];
        proof {
            let pre = views_of(comps@).take(i + 1);
            assert(pre.drop_last() =~= views_of(comps@).take(i as int));
            assert(pre.last() == comps@[i as int]@);
        }
        if c.len() == 0 || (c.len() == 1 && c[0] == 46) {
            proof {
                if c@.len() == 1 && c@[0] == 46 {
                    assert(c@ =~= seq![46u8]);
                }
            }
        } else if c.len() == 2 && c[0] == 46 && c[1] == 46 {
            proof {
                assert(c@ =~= seq![46u8, 46u8]);
                assert(c@ != seq![46u8]);
            }
            if stack.len() == 0 {
                proof {
                    let pre = views_of(comps@).take(i + 1);
                    assert(views_of(stack@).len() == 0);
                    assert(normalize(pre) is None);
                    lemma_normalize_none_extends(views_of(comps@), i + 1);
                }
                return None;
            }
            let ghost old_stack = stack@;
            stack.pop();
            proof {
                assert(views_of(stack@) =~= views_of(old_stack).drop_last());
            }
        } else {
            proof {
                if c@ == seq![46u8] {
                    assert(c@.len() == 1);
                    assert(c@[0] == 46u8);
                }
                if c@ == seq![46u8, 46u8] {
                    assert(c@.len() == 2);
                    assert(c@[0] == 46u8 && c@[1] == 46u8);
                }
            }
            let ghost old_stack = stack@;
            let copy = subvec(c, 0, c.len());
            proof {
                assert(copy@ =~= c@);
                assert(views_of(old_stack.push(copy)) =~= views_of(old_stack).push(c@));
            }
            stack.push(copy);
        }
        i = i + 1;
    }
    proof {
        assert(views_of(comps@).take(n as int) =~= views_of(comps@));
    }
    Some(stack)
}

/// Joins components with `/`.
fn join_components(stack: &Vec<Vec<u8>>) -> (r: Vec<u8>)
    ensures
        r@ == join_path(views_of(stack@)),
{
    let n = stack.len();
    let mut out: Vec<u8> = Vec::new();
    let mut i: usize = 0;
    while i < n
        invariant
            0 <= i <= n == stack@.len(),
            out@ =~= join_path(views_of(stack@).take(i as int)),
        decreases n - i,
    {
        let ghost before = out@;
        if i > 0 {
            out.push(47);
        }
        let c = &stack[i];
        let m = c.len();
        let mut j: usize = 0;
        while j < m
            invariant
                0 <= j <= m == c@.len(),
                c@ == stack@[i as int]@,
                out@ =~= (if i > 0 {
                    before + seq![47u8]
                } else {
                    before
                }) + c@.take(j as int),
            decreases m - j,
        {
            out.push(c[j]);
            proof {
                assert(c@.take(j + 1) =~= c@.take(j as int).push(c@[j as int]));
            }
            j = j + 1;
        }
        proof {
            let pre = views_of(stack@).take(i + 1);
            assert(pre.drop_last() =~= views_of(stack@).take(i as int));
            assert(pre.last() == stack@[i as int]@);
            assert(c@.take(m as int) =~= c@);
            if i == 0 {
                assert(pre.len() == 1);
                assert(join_path(pre) == pre[0]);
                assert(before =~= Seq::<u8>::empty());
            }
        }
        i = i + 1;
    }
    proof {
        assert(views_of(stack@).take(n as int) =~= views_of(stack@));
    }
    out
}

/// Resolves `path` against the workspace root to an identifier.
///
/// Deterministic: equal inputs yield equal identifiers. Fails with
/// `WorkspaceError` when the path is absolute outside the root or escapes it
/// through `..`, and with `NotFound` when nothing remains of the path.
/// Whether `path` is absolute under the workspace root: root prefix, then a
/// separator.
fn is_under_root(workspace: &Vec<u8>, path: &Vec<u8>) -> (r: bool)
    ensures
        r == (workspace@.len() < path@.len() && path@.take(workspace@.len() as int) == workspace@
            && path@[workspace@.len() as int] == 47),
{
    let wlen = workspace.len();
    let plen = path.len();
    if plen <= wlen {
        return false;
    }
    if path[wlen] != 47 {
        return false;
    }
    let mut k: usize = 0;
    while k < wlen
        invariant
            0 <= k <= wlen == workspace@.len(),
            wlen < plen == path@.len(),
            forall|t: int| 0 <= t < k ==> path@[t] == workspace@[t],
        decreases wlen - k,
    {
        if path[k] != workspace[k] {
            proof {
                assert(path@.take(wlen as int)[k as int] != workspace@[k as int]);
            }
            return false;
        }
        k = k + 1;
    }
    proof {
        assert(path@.take(wlen as int) =~= workspace@);
    }
    true
}

pub fn resolve_identifier(workspace: &Vec<u8>, path: &Vec<u8>) -> (r: Result<Identifier, NoleError>)
    ensures
        match r {
            Ok(id) => spec_resolve(workspace@, path@) == Ok::<Seq<u8>, NoleError>(id@),
            Err(e) => spec_resolve(workspace@, path@) == Err::<Seq<u8>, NoleError>(e),
        },
{
    let wlen = workspace.len();
    let plen = path.len();
    let under_root = is_under_root(workspace, path);
    let rel: Vec<u8> = if under_root {
        subvec(path, wlen + 1, plen)
    } else if plen > 0 && path[0] == 47 {
        return Err(NoleError::WorkspaceError);
    } else {
        subvec(path, 0, plen)
    };
    proof {
        if under_root {
            assert(rel@ =~= path@.skip(wlen + 1));
        } else {
            assert(rel@ =~= path@);
        }
        assert(spec_rel_part(workspace@, path@) == Some(rel@));
    }
    let comps = split_components(&rel);
    match normalize_components(comps) {
        None => Err(NoleError::WorkspaceError),
        Some(stack) => {
            if stack.len() == 0 {
                Err(NoleError::NotFound)
            } else {
                let joined = join_components(&stack);
                Ok(Identifier { path: joined })
            }
        },
    }
}

} // verus!
