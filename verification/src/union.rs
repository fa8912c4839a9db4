//! Union-find: classes of elements, each with a representative.
//!
//! The elements are numbered. The parent of an element always has a lesser
//! number than the element, so that the representative of a class is its
//! least element.

use vstd::prelude::*;

verus! {

/// A forest over the elements `0..n`: the parent of each element that has
/// one.
#[derive(Debug)]
pub struct UnionFind {
    pub parent: Vec<Option<usize>>,
}

/// The root of the element `a` in a forest whose parents come before their
/// children.
pub open spec fn root_of(parent: Seq<Option<usize>>, a: int) -> int
    decreases a,
{
    if 0 <= a < parent.len() {
        match parent[a] {
            Some(p) => if p < a {
                root_of(parent, p as int)
            } else {
                a
            },
            None => a,
        }
    } else {
        a
    }
}

/// Whether every parent comes before its child.
pub open spec fn ordered(parent: Seq<Option<usize>>) -> bool {
    forall|i: int| 0 <= i < parent.len() ==> match #[trigger] parent[i] {
        Some(p) => p < i,
        None => true,
    }
}

/// The root of an element is an element without a parent, not after it.
pub proof fn lemma_root(parent: Seq<Option<usize>>, a: int)
    requires
        ordered(parent),
        0 <= a < parent.len(),
    ensures
        0 <= root_of(parent, a) <= a,
        parent[root_of(parent, a)] is None,
    decreases a,
{
    if let Some(p) = parent[a] {
        lemma_root(parent, p as int);
    }
}

/// Looking up is idempotent: the root of a root is the root.
pub proof fn law_lookup_idempotent(parent: Seq<Option<usize>>, a: int)
    requires
        ordered(parent),
        0 <= a < parent.len(),
    ensures
        root_of(parent, root_of(parent, a)) == root_of(parent, a),
{
    lemma_root(parent, a);
}

/// Whether `p` stands above `a` in the forest: it is the parent of `a`, or
/// stands above that parent.
pub open spec fn ancestor(parent: Seq<Option<usize>>, a: int, p: int) -> bool
    decreases a,
{
    0 <= a < parent.len() && match parent[a] {
        Some(q) => q < a && (q == p || ancestor(parent, q as int, p)),
        None => false,
    }
}

/// Whether the element `a` has in `after` the parent `before` gave it, or
/// one that stood above it in `before`.
pub open spec fn moved_up(before: Seq<Option<usize>>, after: Seq<Option<usize>>, a: int) -> bool {
    after[a] == before[a] || match after[a] {
        Some(g) => ancestor(before, a, g as int),
        None => false,
    }
}

/// Whether `after` is `before` but for the parent of `a`, which may have
/// moved up.
pub open spec fn compressed(before: Seq<Option<usize>>, after: Seq<Option<usize>>, a: int) -> bool {
    &&& after.len() == before.len()
    &&& forall|i: int| 0 <= i < before.len() && i != a ==> after[i] == before[i]
    &&& 0 <= a < before.len() ==> moved_up(before, after, a)
}

/// What stands above an element comes before it and has its root.
pub proof fn lemma_ancestor(parent: Seq<Option<usize>>, a: int, p: int)
    requires
        ancestor(parent, a, p),
    ensures
        0 <= p < a,
        root_of(parent, p) == root_of(parent, a),
    decreases a,
{
    let q = parent[a]->0;
    if q != p {
        lemma_ancestor(parent, q as int, p);
    }
}

/// What stands above an ancestor stands above the element.
pub proof fn lemma_ancestor_transitive(parent: Seq<Option<usize>>, a: int, p: int, q: int)
    requires
        ancestor(parent, a, p),
        ancestor(parent, p, q),
    ensures
        ancestor(parent, a, q),
    decreases a,
{
    let n = parent[a]->0;
    if n != p {
        lemma_ancestor_transitive(parent, n as int, p, q);
    }
}

/// After an element has moved up, whatever stands above another element
/// stood above it before.
pub proof fn lemma_compressed_ancestor(
    before: Seq<Option<usize>>,
    after: Seq<Option<usize>>,
    a: int,
    x: int,
    g: int,
)
    requires
        compressed(before, after, a),
        ancestor(after, x, g),
    ensures
        ancestor(before, x, g),
    decreases x,
{
    let n = after[x]->0;
    if x == a && after[a] != before[a] {
        if n != g {
            lemma_compressed_ancestor(before, after, a, n as int, g);
            lemma_ancestor_transitive(before, a, n as int, g);
        }
    } else {
        if n != g {
            lemma_compressed_ancestor(before, after, a, n as int, g);
        }
    }
}

/// Moving an element below one of its ancestors changes no root.
proof fn lemma_compress(
    before: Seq<Option<usize>>,
    after: Seq<Option<usize>>,
    a: int,
    g: usize,
    i: int,
)
    requires
        ordered(before),
        0 <= a < before.len(),
        g < a,
        root_of(before, g as int) == root_of(before, a),
        after == before.update(a, Some(g)),
        0 <= i < before.len(),
    ensures
        root_of(after, i) == root_of(before, i),
    decreases i,
{
    if i == a {
        lemma_compress(before, after, a, g, g as int);
    } else if let Some(p) = before[i] {
        lemma_compress(before, after, a, g, p as int);
    }
}

/// Putting a root below an earlier root moves its class to that root and
/// changes no other root.
proof fn lemma_link(
    before: Seq<Option<usize>>,
    after: Seq<Option<usize>>,
    hi: int,
    lo: usize,
    i: int,
)
    requires
        ordered(before),
        0 <= lo < hi < before.len(),
        before[hi] is None,
        before[lo as int] is None,
        after == before.update(hi, Some(lo)),
        0 <= i < before.len(),
    ensures
        root_of(after, i) == if root_of(before, i) == hi {
            lo as int
        } else {
            root_of(before, i)
        },
    decreases i,
{
    if i == hi {
        assert(root_of(after, lo as int) == lo);
    } else if let Some(p) = before[i] {
        lemma_link(before, after, hi, lo, p as int);
    }
}

/// The greater of the roots of `a` and `b`.
pub open spec fn greater_root(parent: Seq<Option<usize>>, a: int, b: int) -> int {
    if root_of(parent, a) < root_of(parent, b) {
        root_of(parent, b)
    } else {
        root_of(parent, a)
    }
}

/// The lesser of the roots of `a` and `b`.
pub open spec fn lesser_root(parent: Seq<Option<usize>>, a: int, b: int) -> int {
    if root_of(parent, a) < root_of(parent, b) {
        root_of(parent, a)
    } else {
        root_of(parent, b)
    }
}

impl UnionFind {
    /// Whether every parent comes before its child.
    pub open spec fn wf(self) -> bool {
        ordered(self.parent@)
    }

    /// The representative of the class of `a`.
    pub open spec fn root(self, a: int) -> int {
        root_of(self.parent@, a)
    }

    /// The forest of `n` elements, each in a class of its own.
    pub fn new(n: usize) -> (r: Self)
        ensures
            r.wf(),
            r.parent@.len() == n,
            forall|i: int| 0 <= i < n ==> r.parent@[i] is None,
    {
        let mut parent: Vec<Option<usize>> = Vec::new();
        let mut i: usize = 0;
        while i < n
            invariant
                i <= n,
                parent@.len() == i,
                forall|j: int| 0 <= j < i ==> parent@[j] is None,
            decreases n - i,
        {
            parent.push(None);
            i += 1;
        }
        UnionFind { parent }
    }

    /// The parent of `a` and the parent of that parent, where both exist.
    pub fn grandparent(&self, a: usize) -> (r: Option<(usize, usize)>)
        requires
            self.wf(),
            a < self.parent@.len(),
        ensures
            match r {
                Some((p, gp)) => self.parent@[a as int] == Some(p) && self.parent@[p as int]
                    == Some(gp) && gp < p < a,
                None => self.parent@[a as int] is None || self.parent@[self.parent@[a as int]->0 as int]
                    is None,
            },
    {
        match self.parent[a] {
            None => None,
            Some(p) => match self.parent[p] {
                None => None,
                Some(gp) => Some((p, gp)),
            },
        }
    }

    /// The representative of the class of `a`. On the way the element is
    /// moved closer to it: its parent becomes one that stood above it.
    /// Nothing else changes.
    pub fn lookup(&mut self, a: usize) -> (r: usize)
        requires
            old(self).wf(),
            a < old(self).parent@.len(),
        ensures
            r == old(self).root(a as int),
            final(self).wf(),
            final(self).parent@.len() == old(self).parent@.len(),
            forall|i: int|
                0 <= i < old(self).parent@.len() ==> final(self).root(i) == old(self).root(i),
            compressed(old(self).parent@, final(self).parent@, a as int),
    {
        let mut current = a;
        proof {
            lemma_root(self.parent@, a as int);
        }
        loop
            invariant
                self.wf(),
                old(self).wf(),
                self.parent@.len() == old(self).parent@.len(),
                a < self.parent@.len(),
                current <= a,
                self.root(current as int) == old(self).root(a as int),
                forall|i: int|
                    0 <= i < old(self).parent@.len() ==> self.root(i) == old(self).root(i),
                compressed(old(self).parent@, self.parent@, a as int),
                current == a ==> self.parent@ == old(self).parent@,
                current != a ==> ancestor(old(self).parent@, a as int, current as int),
            decreases current,
        {
            match self.grandparent(current) {
                Some((p, gp)) => {
                    let ghost before = self.parent@;
                    let ghost first = old(self).parent@;
                    proof {
                        assert(root_of(before, current as int) == root_of(before, p as int));
                        assert(root_of(before, p as int) == root_of(before, gp as int));
                        if current != a {
                            lemma_ancestor(first, a as int, current as int);
                        }
                        assert(first[current as int] == Some(p));
                        assert(first[p as int] == Some(gp));
                        assert(ancestor(first, p as int, gp as int));
                        assert(ancestor(first, current as int, p as int));
                        lemma_ancestor_transitive(first, current as int, p as int, gp as int);
                        if current != a {
                            lemma_ancestor_transitive(first, a as int, current as int, p as int);
                            lemma_ancestor_transitive(first, a as int, current as int, gp as int);
                        }
                    }
                    self.parent[a] = Some(gp);
                    proof {
                        let after = self.parent@;
                        assert(root_of(before, gp as int) == root_of(before, a as int));
                        assert forall|i: int| 0 <= i < before.len() implies root_of(after, i)
                            == root_of(before, i) by {
                            lemma_compress(before, after, a as int, gp, i);
                        }
                    }
                    current = p;
                },
                None => {
                    proof {
                        if let Some(p) = self.parent@[current as int] {
                            assert(root_of(self.parent@, current as int) == root_of(
                                self.parent@,
                                p as int,
                            ));
                            assert(root_of(self.parent@, p as int) == p);
                        } else {
                            assert(root_of(self.parent@, current as int) == current);
                        }
                    }
                    return match self.parent[current] {
                        None => current,
                        Some(p) => p,
                    };
                },
            }
        }
    }

    /// Unites the classes of `a` and `b`, unless they are one class already.
    /// The lesser of the two representatives stands for the united class:
    /// it becomes the parent of the greater. Besides, `a` and `b` may have
    /// moved up; nothing else changes.
    pub fn merge(&mut self, a: usize, b: usize) -> (r: bool)
        requires
            old(self).wf(),
            a < old(self).parent@.len(),
            b < old(self).parent@.len(),
        ensures
            r == (old(self).root(a as int) != old(self).root(b as int)),
            final(self).wf(),
            final(self).parent@.len() == old(self).parent@.len(),
            forall|i: int|
                0 <= i < old(self).parent@.len() ==> final(self).root(i) == if old(self).root(i)
                    == old(self).root(a as int) || old(self).root(i) == old(self).root(b as int) {
                    if old(self).root(a as int) < old(self).root(b as int) {
                        old(self).root(a as int)
                    } else {
                        old(self).root(b as int)
                    }
                } else {
                    old(self).root(i)
                },
            forall|i: int|
                0 <= i < old(self).parent@.len() ==> if r && i == greater_root(
                    old(self).parent@,
                    a as int,
                    b as int,
                ) {
                    #[trigger] final(self).parent@[i] == Some(
                        lesser_root(old(self).parent@, a as int, b as int) as usize,
                    )
                } else if i == a || i == b {
                    moved_up(old(self).parent@, final(self).parent@, i)
                } else {
                    final(self).parent@[i] == old(self).parent@[i]
                },
    {
        if a == b {
            return false;
        }
        let ar = self.lookup(a);
        let ghost mid = self.parent@;
        let br = self.lookup(b);
        proof {
            let first = old(self).parent@;
            let now = self.parent@;
            if now[b as int] != mid[b as int] {
                lemma_compressed_ancestor(first, mid, a as int, b as int, now[b as int]->0 as int);
            }
            assert(moved_up(first, now, b as int));
            assert(moved_up(first, now, a as int));
        }
        if ar == br {
            return false;
        }
        let (less, greater) = if ar < br {
            (ar, br)
        } else {
            (br, ar)
        };
        proof {
            lemma_root(old(self).parent@, a as int);
            lemma_root(old(self).parent@, b as int);
            lemma_root(self.parent@, a as int);
            lemma_root(self.parent@, b as int);
        }
        let ghost before = self.parent@;
        self.parent[greater] = Some(less);
        proof {
            let after = self.parent@;
            assert forall|i: int| 0 <= i < before.len() implies root_of(after, i) == if root_of(
                before,
                i,
            ) == greater {
                less as int
            } else {
                root_of(before, i)
            } by {
                lemma_link(before, after, greater as int, less, i);
            }
        }
        true
    }
}

} // verus!
