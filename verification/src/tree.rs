//! The node hierarchy the solver walks.
//!
//! Nodes are a dense arena `0..n` with node `0` as the root. Every non-root
//! node's parent has a smaller index, so ascending index order is a
//! topological order: walking parents by ascending index visits each parent
//! before any of its descendants, and descending order visits the deepest
//! subtrees first. The hierarchy keeps, besides the parent array, each node's
//! list of children in ascending order and the ascending list of all non-leaf
//! nodes, which the passes iterate over.

use vstd::prelude::*;

verus! {

/// A parent/child hierarchy over the dense node arena `0..n`.
pub struct NodeHierarchy {
    /// `parent[i]` is the parent of node `i`; `parent[0]` is `0` (unused).
    pub parent: Vec<usize>,
    /// `children[p]` lists the children of `p` in ascending order.
    pub children: Vec<Vec<usize>>,
    /// All nodes with at least one child, in ascending order.
    pub parents_ordered: Vec<usize>,
}

impl NodeHierarchy {
    /// The number of nodes.
    pub open spec fn n(self) -> int {
        self.parent@.len() as int
    }

    /// The parent of node `i`, none for the root.
    pub open spec fn parent_of(self, i: int) -> Option<int> {
        if i == 0 {
            None
        } else {
            Some(self.parent@[i] as int)
        }
    }

    /// Well-formedness: a rooted forest-free tree on `0..n` in which every
    /// child has a larger index than its parent, with consistent child lists
    /// and a consistent non-leaf list.
    pub open spec fn wf(self) -> bool {
        let n = self.n();
        &&& n >= 1
        &&& self.children@.len() == n
        &&& self.parent@[0] == 0
        &&& forall|i: int| 1 <= i < n ==> (self.parent@[i] as int) < i
        &&& forall|p: int, k: int|
            0 <= p < n && 0 <= k < self.children@[p]@.len() ==> 1 <= (
            self.children@[p]@[k] as int) < n && (self.parent@[self.children@[p]@[k] as int] as int)
                == p && p < (self.children@[p]@[k] as int)
        &&& forall|p: int, k1: int, k2: int|
            0 <= p < n && 0 <= k1 < k2 < self.children@[p]@.len() ==> (self.children@[p]@[k1] as int)
                < (self.children@[p]@[k2] as int)
        &&& forall|i: int|
            1 <= i < n ==> self.children@[self.parent@[i] as int]@.contains(i as usize)
        &&& forall|k: int|
            0 <= k < self.parents_ordered@.len() ==> (self.parents_ordered@[k] as int) < n && (
            self.children@[self.parents_ordered@[k] as int]@.len() > 0 || (
            self.parents_ordered@[k] as int) == 0)
        &&& forall|k1: int, k2: int|
            0 <= k1 < k2 < self.parents_ordered@.len() ==> (self.parents_ordered@[k1] as int) < (
            self.parents_ordered@[k2] as int)
        &&& forall|p: int|
            0 <= p < n && (self.children@[p]@.len() > 0 || p == 0)
                ==> self.parents_ordered@.contains(p as usize)
    }

    /// The number of nodes.
    pub fn len(&self) -> (r: usize)
        ensures
            r as int == self.n(),
    {
        self.parent.len()
    }

    /// Builds a hierarchy from a parent array.
    ///
    /// `parent[i]` must be less than `i` for every non-root node and the
    /// arena must not be empty; `parent[0]` is ignored. Returns `None` when
    /// the array does not describe such a tree.
    pub fn from_parents(parent_in: &Vec<usize>) -> (r: Option<NodeHierarchy>)
        ensures
            match r {
                Some(t) => {
                    &&& t.wf()
                    &&& t.n() == parent_in@.len()
                    &&& t.parent@[0] == 0
                    &&& forall|i: int|
                        1 <= i < parent_in@.len() ==> t.parent@[i] == parent_in@[i]
                },
                None => parent_in@.len() == 0 || exists|i: int|
                    1 <= i < parent_in@.len() && (parent_in@[i] as int) >= i,
            },
    {
        let n = parent_in.len();
        if n == 0 {
            return None;
        }
        let mut parent: Vec<usize> = Vec::new();
        parent.push(0);
        let mut i: usize = 1;
        while i < n
            invariant
                1 <= i <= n,
                n == parent_in@.len(),
                parent@.len() == i,
                parent@[0] == 0,
                forall|j: int| 1 <= j < i ==> parent@[j] == parent_in@[j],
                forall|j: int| 1 <= j < i ==> (parent@[j] as int) < j,
            decreases n - i,
        {
            if parent_in[i] >= i {
                return None;
            }
            parent.push(parent_in[i]);
            i += 1;
        }

        let mut children: Vec<Vec<usize>> = Vec::new();
        let mut p: usize = 0;
        while p < n
            invariant
                p <= n,
                n == parent@.len(),
                parent@[0] == 0,
                forall|j: int| 1 <= j < n ==> (parent@[j] as int) < j,
                children@.len() == p,
                forall|q: int, k: int|
                    0 <= q < p && 0 <= k < children@[q]@.len() ==> 1 <= (children@[q]@[k] as int)
                        < n && (parent@[children@[q]@[k] as int] as int) == q && q < (
                    children@[q]@[k] as int),
                forall|q: int, k1: int, k2: int|
                    0 <= q < p && 0 <= k1 < k2 < children@[q]@.len() ==> (children@[q]@[k1] as int)
                        < (children@[q]@[k2] as int),
                forall|j: int|
                    1 <= j < n && (parent@[j] as int) < p ==> children@[parent@[j] as int]@.contains(
                        j as usize,
                    ),
            decreases n - p,
        {
            let mut cur: Vec<usize> = Vec::new();
            let mut c: usize = p + 1;
            while c < n
                invariant
                    p < c <= n,
                    n == parent@.len(),
                    forall|k: int|
                        0 <= k < cur@.len() ==> p < (cur@[k] as int) < c && (
                        parent@[cur@[k] as int] as int) == p,
                    forall|k1: int, k2: int|
                        0 <= k1 < k2 < cur@.len() ==> (cur@[k1] as int) < (cur@[k2] as int),
                    forall|j: int|
                        p < j < c && (parent@[j] as int) == p ==> cur@.contains(j as usize),
                decreases n - c,
            {
                if parent[c] == p {
                    let ghost prev = cur@;
                    cur.push(c);
                    proof {
                        assert forall|j: int|
                            p < j < c && (parent@[j] as int) == p implies cur@.contains(
                            j as usize,
                        ) by {
                            assert(prev.contains(j as usize));
                            let k = choose|k: int|
                                0 <= k < prev.len() && prev[k] == j as usize;
                            assert(cur@[k] == j as usize);
                        }
                        assert(cur@[prev.len() as int] == c);
                    }
                }
                c += 1;
            }
            children.push(cur);
            p += 1;
        }

        let mut parents_ordered: Vec<usize> = Vec::new();
        let mut q: usize = 0;
        while q < n
            invariant
                q <= n,
                children@.len() == n,
                forall|k: int|
                    0 <= k < parents_ordered@.len() ==> (parents_ordered@[k] as int) < q && (
                    children@[parents_ordered@[k] as int]@.len() > 0 || (parents_ordered@[k]
                        as int) == 0),
                forall|k1: int, k2: int|
                    0 <= k1 < k2 < parents_ordered@.len() ==> (parents_ordered@[k1] as int) < (
                    parents_ordered@[k2] as int),
                forall|j: int|
                    0 <= j < q && (children@[j]@.len() > 0 || j == 0) ==> parents_ordered@.contains(
                        j as usize,
                    ),
            decreases n - q,
        {
            if q == 0 || children[q].len() > 0 {
                let ghost prev = parents_ordered@;
                parents_ordered.push(q);
                proof {
                    assert forall|j: int|
                        0 <= j < q && (children@[j]@.len() > 0 || j
                            == 0) implies parents_ordered@.contains(j as usize) by {
                        assert(prev.contains(j as usize));
                        let k = choose|k: int| 0 <= k < prev.len() && prev[k] == j as usize;
                        assert(parents_ordered@[k] == j as usize);
                    }
                    assert(parents_ordered@[prev.len() as int] == q);
                }
            }
            q += 1;
        }

        proof {
            let n_int = parent@.len() as int;
            assert(forall|k: int|
                0 <= k < parents_ordered@.len() ==> (#[trigger] parents_ordered@[k] as int) < n_int
                    && (children@[parents_ordered@[k] as int]@.len() > 0 || (parents_ordered@[k]
                    as int) == 0));
            assert(forall|p2: int|
                0 <= p2 < n_int && (children@[p2]@.len() > 0 || p2 == 0)
                    ==> parents_ordered@.contains(p2 as usize));
            assert(forall|i2: int|
                1 <= i2 < n_int ==> children@[parent@[i2] as int]@.contains(i2 as usize));
        }
        Some(NodeHierarchy { parent, children, parents_ordered })
    }
}

} // verus!
