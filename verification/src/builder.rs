//! Bookkeeping of the body builder. A genotype graph is walked depth first;
//! each visited node becomes a part, attached to the part built for the
//! nearest enclosing node of the walk. The builder keeps the parts of the
//! current path on a stack: entering a node at depth `d` drops everything at
//! depth `d` or deeper, and the part left on top is the new part's parent.
use vstd::prelude::*;

verus! {

/// The stack of visits on the current path after the walk has entered nodes
/// at the given depths, one after the other.
pub open spec fn path_after(depths: Seq<nat>) -> Seq<nat>
    decreases depths.len(),
{
    if depths.len() == 0 {
        seq![]
    } else {
        let prev = path_after(depths.drop_last());
        let d = depths.last();
        let kept = if d <= prev.len() {
            prev.take(d as int)
        } else {
            prev
        };
        kept.push((depths.len() - 1) as nat)
    }
}

/// The visit that the `k`-th visit of a walk with these depths is attached
/// to, or `None` when it starts a new body.
pub open spec fn parent_of(depths: Seq<nat>, k: int) -> Option<nat> {
    let prev = path_after(depths.take(k));
    let d = depths[k];
    let kept = if d <= prev.len() {
        prev.take(d as int)
    } else {
        prev
    };
    if kept.len() == 0 {
        None
    } else {
        Some(kept.last())
    }
}

/// The depths of a depth-first walk: it starts at depth 0 and goes down at
/// most one level at a time.
pub open spec fn is_walk(depths: Seq<nat>) -> bool {
    forall|k: int|
        0 <= k < depths.len() ==> #[trigger] depths[k] <= (if k == 0 {
            0
        } else {
            depths[k - 1] + 1
        })
}

/// A prefix of a walk is a walk.
proof fn lemma_walk_prefix(depths: Seq<nat>, n: int)
    requires
        is_walk(depths),
        0 <= n <= depths.len(),
    ensures
        is_walk(depths.take(n)),
{
    let t = depths.take(n);
    assert forall|k: int| 0 <= k < t.len() implies #[trigger] t[k] <= (if k == 0 {
        0
    } else {
        t[k - 1] + 1
    }) by {
        assert(t[k] == depths[k]);
        if k > 0 {
            assert(t[k - 1] == depths[k - 1]);
        }
    }
}

/// Visit `v` is at depth `i`, and every visit after it lies deeper than `i`.
pub open spec fn encloses_rest(depths: Seq<nat>, v: nat, i: int) -> bool {
    &&& v < depths.len()
    &&& depths[v as int] == i
    &&& forall|m: int| v < m < depths.len() ==> #[trigger] depths[m] > i
}

/// After a walk, the `i`-th entry of the stack is a visit at depth `i`, and
/// every later visit lies deeper than `i`: the stack is the chain of
/// enclosing visits of the last one.
pub proof fn lemma_path_after_walk(depths: Seq<nat>)
    requires
        is_walk(depths),
    ensures
        depths.len() == 0 ==> path_after(depths).len() == 0,
        depths.len() > 0 ==> path_after(depths).len() == depths.last() + 1,
        forall|i: int|
            0 <= i < path_after(depths).len() ==> encloses_rest(
                depths,
                #[trigger] path_after(depths)[i],
                i,
            ),
    decreases depths.len(),
{
    if depths.len() > 0 {
        let n = depths.len() as int;
        let prefix = depths.drop_last();
        assert(prefix =~= depths.take(n - 1));
        lemma_walk_prefix(depths, n - 1);
        lemma_path_after_walk(prefix);
        let prev = path_after(prefix);
        let d = depths.last();
        assert(depths[n - 1] == d);
        if n > 1 {
            assert(depths[n - 1] <= depths[n - 2] + 1);
            assert(prefix.last() == depths[n - 2]);
        }
        assert(d <= prev.len());
        let p = path_after(depths);
        assert(p =~= prev.take(d as int).push((n - 1) as nat));
        assert forall|i: int| 0 <= i < p.len() implies encloses_rest(depths, #[trigger] p[i], i) by {
            if i < d {
                let v = prev[i];
                assert(encloses_rest(prefix, v, i));
                assert(p[i] == v);
                assert(prefix[v as int] == depths[v as int]);
                assert forall|m: int| v < m < depths.len() implies #[trigger] depths[m] > i by {
                    if m < n - 1 {
                        assert(prefix[m] == depths[m]);
                    }
                }
            } else {
                assert(p[i] == n - 1);
            }
        }
    }
}

/// In a depth-first walk the `k`-th visit starts a new body exactly when it
/// is at depth 0; otherwise it is attached to an earlier visit one level
/// shallower, and every visit in between lies deeper than that parent, so the
/// `k`-th visit is in the parent's subtree.
pub proof fn lemma_parent_encloses(depths: Seq<nat>, k: int)
    requires
        is_walk(depths),
        0 <= k < depths.len(),
    ensures
        parent_of(depths, k) is None <==> depths[k] == 0,
        parent_of(depths, k) matches Some(j) ==> {
            &&& j < k
            &&& depths[j as int] + 1 == depths[k]
            &&& forall|m: int| j < m < k ==> depths[m] > depths[j as int]
        },
{
    let t = depths.take(k);
    lemma_walk_prefix(depths, k);
    lemma_path_after_walk(t);
    let prev = path_after(t);
    let d = depths[k];
    if k > 0 {
        assert(t.last() == depths[k - 1]);
        assert(depths[k] <= depths[k - 1] + 1);
    } else {
        assert(depths[k] <= 0);
    }
    assert(d <= prev.len());
    if d > 0 {
        let j = prev[d - 1];
        assert(encloses_rest(t, j, d - 1));
        assert(prev.take(d as int).last() == j);
        assert(t[j as int] == depths[j as int]);
        assert forall|m: int| j < m < k implies depths[m] > depths[j as int] by {
            assert(t[m] == depths[m]);
        }
    }
}

/// Along a depth-first walk the stack is never too short for the next node:
/// the depth of the next visit is at most the number of parts on the path.
pub proof fn lemma_walk_can_continue(depths: Seq<nat>, next: nat)
    requires
        is_walk(depths.push(next)),
    ensures
        next <= path_after(depths).len(),
{
    let all = depths.push(next);
    let n = depths.len() as int;
    assert(all.take(n) =~= depths);
    lemma_walk_prefix(all, n);
    lemma_path_after_walk(depths);
    assert(all[n] == next);
    if n > 0 {
        assert(all[n - 1] == depths.last());
    }
}

/// The mathematical content of a [`BuildStack`].
pub struct BuildStackModel {
    /// The visits on the current path, from the root down.
    pub path: Seq<nat>,
    /// The depth of every visit so far, in order.
    pub depths: Seq<nat>,
}

/// The stack of parts on the current path of the walk, as visit numbers.
pub struct BuildStack {
    path: Vec<usize>,
    visited: usize,
    depths: Ghost<Seq<nat>>,
}

impl View for BuildStack {
    type V = BuildStackModel;

    closed spec fn view(&self) -> BuildStackModel {
        BuildStackModel {
            path: self.path@.map_values(|v: usize| v as nat),
            depths: self.depths@,
        }
    }
}

impl BuildStack {
    /// The stack holds exactly what the walk so far leaves on it.
    pub closed spec fn wf(&self) -> bool {
        &&& self.visited == self.depths@.len()
        &&& self@.path == path_after(self.depths@)
    }

    /// An empty stack, before the walk has visited anything.
    pub fn new() -> (stack: BuildStack)
        ensures
            stack.wf(),
            stack@.path == Seq::<nat>::empty(),
            stack@.depths == Seq::<nat>::empty(),
            stack@.path == path_after(stack@.depths),
    {
        let stack = BuildStack { path: Vec::new(), visited: 0, depths: Ghost(Seq::empty()) };
        assert(stack@.path =~= Seq::<nat>::empty());
        stack
    }

    /// The number of visits so far.
    pub fn visited(&self) -> (n: usize)
        requires
            self.wf(),
        ensures
            n == self@.depths.len(),
    {
        self.visited
    }

    /// The number of parts on the current path.
    pub fn len(&self) -> (n: usize)
        ensures
            n == self@.path.len(),
    {
        self.path.len()
    }

    /// Enters the next node of the walk at `depth`: the parts at `depth` or
    /// deeper leave the stack, the part then on top (if any) is returned as
    /// the parent, and the new visit goes on top.
    pub fn enter(&mut self, depth: usize) -> (parent: Option<usize>)
        requires
            old(self).wf(),
            depth <= old(self)@.path.len(),
            old(self)@.depths.len() < usize::MAX,
        ensures
            final(self).wf(),
            final(self)@.depths == old(self)@.depths.push(depth as nat),
            final(self)@.path == path_after(final(self)@.depths),
            final(self)@.path == old(self)@.path.take(depth as int).push(
                old(self)@.depths.len(),
            ),
            parent == (if depth == 0 {
                None
            } else {
                Some(old(self)@.path[depth - 1] as usize)
            }),
            parent matches Some(p) ==> parent_of(final(self)@.depths, old(self)@.depths.len() as int)
                == Some(p as nat),
            parent is None ==> parent_of(final(self)@.depths, old(self)@.depths.len() as int)
                is None,
    {
        let ghost old_depths = self.depths@;
        let ghost old_path = self@.path;
        let k = self.visited;
        self.path.truncate(depth);
        let parent = if depth == 0 {
            None
        } else {
            Some(self.path[depth - 1])
        };
        self.path.push(k);
        self.visited = k + 1;
        self.depths = Ghost(old_depths.push(depth as nat));
        proof {
            let nd = self.depths@;
            assert(nd.drop_last() =~= old_depths);
            assert(nd.take(k as int) =~= old_depths);
            assert(self@.path =~= old_path.take(depth as int).push(k as nat));
        }
        parent
    }
}

} // verus!
