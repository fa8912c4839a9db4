//! The classes of unified allocations and their representatives.
//!
//! The allocations that are unified with another are listed in ascending
//! order and put into a union-find forest, one merge for each pair that is
//! unified. The root of a class is then its least member.

use crate::allocation::{
    lemma_precedes_irreflexive, lemma_precedes_total, lemma_precedes_transitive, Alloc,
    Allocations,
};
use crate::analysis::engine::lemma_step_derivable;
use crate::analysis::facts::{holds, Fact, FactView};
use crate::analysis::rules::{both, derivable, rule_unify_transitive, Setup};
use crate::llvm::Module;
use crate::union::{lemma_root, root_of};
use vstd::prelude::*;

verus! {

/// Whether `b` is in the class of `a`: it is `a`, or unified with it.
pub open spec fn in_class(m: Module, c: Setup, a: Alloc, b: Alloc) -> bool {
    b == a || derivable(m, c, FactView::Unified { a, b })
}

/// Whether `r` is the representative of the class of `a`: the member that
/// no other member comes before.
pub open spec fn is_representative(m: Module, c: Setup, a: Alloc, r: Alloc) -> bool {
    in_class(m, c, a, r) && forall|b: Alloc| #[trigger] in_class(m, c, a, b) ==> !b.precedes(r)
}

/// A class has one representative at most.
pub proof fn lemma_representative_unique(m: Module, c: Setup, a: Alloc, r1: Alloc, r2: Alloc)
    requires
        is_representative(m, c, a, r1),
        is_representative(m, c, a, r2),
    ensures
        r1 == r2,
{
    assert(in_class(m, c, a, r1));
    assert(in_class(m, c, a, r2));
    lemma_precedes_total(r1, r2);
}

/// Whether the allocation is unified with another.
pub open spec fn is_unified(m: Module, c: Setup, a: Alloc) -> bool {
    exists|b: Alloc| #[trigger] derivable(m, c, (FactView::Unified { a, b }))
}

/// Whether the list is in strictly ascending order.
pub open spec fn ascending(allocs: Seq<Alloc>) -> bool {
    forall|i: int, j: int|
        0 <= i < j < allocs.len() ==> (#[trigger] allocs[i]).precedes(#[trigger] allocs[j])
}

/// Whether these are the classes of the unified allocations: the list holds,
/// in ascending order, the allocations that are unified with another, two
/// of them have one root in the forest exactly if they are unified, and
/// every parent in the forest is alike its child.
pub open spec fn describes_classes(m: Module, c: Setup, t: Allocations) -> bool {
    &&& t.wf()
    &&& t.alike_classes(m)
    &&& ascending(t.allocs@)
    &&& forall|a: Alloc| #![trigger t.allocs@.contains(a)] t.allocs@.contains(a) <==> is_unified(m, c, a)
    &&& forall|i: int, j: int|
        #![trigger t.classes.root(i), t.classes.root(j)]
        0 <= i < t.allocs@.len() && 0 <= j < t.allocs@.len() ==> (t.classes.root(i)
            == t.classes.root(j) <==> in_class(m, c, t.allocs@[i], t.allocs@[j]))
}

/// Whether a fact of the list unifies the allocation with another.
spec fn named(state: Seq<Fact>, a: Alloc) -> bool {
    exists|j: int| 0 <= j < state.len() && (#[trigger] state[j])@ is Unified && state[j]@->Unified_a == a
}

/// Whether `x` comes after `after`, if there is one.
spec fn beyond(after: Option<Alloc>, x: Alloc) -> bool {
    match after {
        Some(l) => l.precedes(x),
        None => true,
    }
}

/// The least of the allocations that the facts unify with another and that
/// come after `after`.
fn next_unified(state: &Vec<Fact>, after: Option<Alloc>) -> (r: Option<Alloc>)
    ensures
        match r {
            Some(x) => named(state@, x) && beyond(after, x) && forall|y: Alloc|
                #![trigger named(state@, y)]
                named(state@, y) && beyond(after, y) ==> !y.precedes(x),
            None => forall|y: Alloc| #![trigger named(state@, y)] named(state@, y) ==> !beyond(after, y),
        },
{
    let mut best: Option<Alloc> = None;
    let mut i: usize = 0;
    while i < state.len()
        invariant
            i <= state.len(),
            match best {
                Some(x) => named(state@, x) && beyond(after, x) && forall|j: int|
                    0 <= j < i && (#[trigger] state@[j])@ is Unified && beyond(
                        after,
                        state@[j]@->Unified_a,
                    ) ==> !state@[j]@->Unified_a.precedes(x),
                None => forall|j: int|
                    0 <= j < i && (#[trigger] state@[j])@ is Unified ==> !beyond(
                        after,
                        state@[j]@->Unified_a,
                    ),
            },
        decreases state.len() - i,
    {
        if let Fact::Unified { a, b } = &state[i] {
            let further = match after {
                Some(l) => l.comes_before(a),
                None => true,
            };
            if further {
                let better = match best {
                    Some(x) => a.comes_before(&x),
                    None => true,
                };
                if better {
                    proof {
                        lemma_precedes_irreflexive(*a);
                        if let Some(x) = best {
                            assert forall|j: int|
                                0 <= j < i + 1 && (#[trigger] state@[j])@ is Unified && beyond(
                                    after,
                                    state@[j]@->Unified_a,
                                ) implies !state@[j]@->Unified_a.precedes(*a) by {
                                if j < i && state@[j]@->Unified_a.precedes(*a) {
                                    lemma_precedes_transitive(state@[j]@->Unified_a, *a, x);
                                }
                            }
                        }
                    }
                    best = Some(*a);
                }
            }
        }
        i += 1;
    }
    proof {
        match best {
            Some(x) => {
                assert forall|y: Alloc| #![trigger named(state@, y)]
                    named(state@, y) && beyond(after, y) implies !y.precedes(x) by {
                    let j = choose|j: int|
                        0 <= j < state@.len() && (#[trigger] state@[j])@ is Unified
                            && state@[j]@->Unified_a == y;
                    assert(!state@[j]@->Unified_a.precedes(x));
                }
            },
            None => {
                assert forall|y: Alloc| #![trigger named(state@, y)]
                    named(state@, y) implies !beyond(after, y) by {
                    let j = choose|j: int|
                        0 <= j < state@.len() && (#[trigger] state@[j])@ is Unified
                            && state@[j]@->Unified_a == y;
                    assert(!beyond(after, state@[j]@->Unified_a));
                }
            },
        }
    }
    best
}

/// The allocations that the facts unify with another, in ascending order.
fn unified_allocations(state: &Vec<Fact>) -> (out: Vec<Alloc>)
    ensures
        ascending(out@),
        forall|a: Alloc| #![trigger out@.contains(a)] out@.contains(a) <==> named(state@, a),
{
    let mut out: Vec<Alloc> = Vec::new();
    let mut last: Option<Alloc> = None;
    loop
        invariant
            ascending(out@),
            last == if out@.len() == 0 {
                None
            } else {
                Some(out@[out@.len() - 1])
            },
            forall|k: int| 0 <= k < out@.len() ==> named(state@, #[trigger] out@[k]),
            forall|a: Alloc|
                #![trigger named(state@, a)]
                named(state@, a) && !beyond(last, a) ==> out@.contains(a),
        decreases usize::MAX - out.len(),
    {
        let n = out.len();
        match next_unified(state, last) {
            None => {
                proof {
                    assert forall|a: Alloc| #![trigger out@.contains(a)]
                        out@.contains(a) <==> named(state@, a) by {
                        if named(state@, a) {
                            assert(!beyond(last, a));
                        }
                    }
                }
                return out;
            },
            Some(x) => {
                let ghost before = out@;
                out.push(x);
                proof {
                    assert forall|i: int, j: int| 0 <= i < j < out@.len() implies (
                    #[trigger] out@[i]).precedes(#[trigger] out@[j]) by {
                        if j == before.len() {
                            if i < before.len() - 1 {
                                lemma_precedes_transitive(
                                    before[i],
                                    before[before.len() - 1],
                                    x,
                                );
                            }
                        }
                    }
                    assert forall|a: Alloc| #![trigger named(state@, a)]
                        named(state@, a) && !beyond(Some(x), a) implies out@.contains(a) by {
                        if beyond(last, a) {
                            assert(!a.precedes(x));
                            lemma_precedes_total(a, x);
                            assert(out@[before.len() as int] == a);
                        } else {
                            assert(before.contains(a));
                            let k = choose|k: int| 0 <= k < before.len() && before[k] == a;
                            assert(out@[k] == a);
                        }
                    }
                }
                last = Some(x);
            },
        }
    }
}

/// The position of the allocation in the list.
fn index_of(allocs: &Vec<Alloc>, a: Alloc) -> (r: Option<usize>)
    ensures
        match r {
            Some(i) => i < allocs@.len() && allocs@[i as int] == a,
            None => !allocs@.contains(a),
        },
{
    let mut i: usize = 0;
    while i < allocs.len()
        invariant
            i <= allocs.len(),
            forall|j: int| 0 <= j < i ==> allocs@[j] != a,
        decreases allocs.len() - i,
    {
        if allocs[i] == a {
            return Some(i);
        }
        i += 1;
    }
    None
}

/// Being unified is transitive, also where the ends are the same
/// allocation.
proof fn lemma_in_class_transitive(m: Module, c: Setup, x: Alloc, y: Alloc, z: Alloc)
    requires
        in_class(m, c, x, y),
        in_class(m, c, y, z),
    ensures
        in_class(m, c, x, z),
{
    if x != y && c.callgraph is Some {
        crate::analysis::laws::law_only_points_to_unifies(m, c, x, y);
    } else if x != y && y != z && x != z {
        let p = FactView::Unified { a: x, b: y };
        let q = FactView::Unified { a: y, b: z };
        let h = FactView::Unified { a: x, b: z };
        assert(rule_unify_transitive(m, c, p, q, h));
        assert(crate::analysis::rules::binary(m, c, p, q, h));
        assert(both(m, c, p, q, h));
        lemma_step_derivable(m, c, p, q, h);
    }
}

/// The classes of the allocations that the derived facts unify.
pub(crate) fn classes(state: &Vec<Fact>, Ghost(m): Ghost<Module>, Ghost(c): Ghost<Setup>) -> (t:
    Allocations)
    requires
        forall|h: FactView| #![trigger holds(state@, h)] holds(state@, h) <==> derivable(m, c, h),
    ensures
        describes_classes(m, c, t),
{
    let allocs = unified_allocations(state);
    let mut t = Allocations::new(allocs);
    proof {
        assert forall|a: Alloc| named(state@, a) <==> is_unified(m, c, a) by {
            if named(state@, a) {
                let j = choose|j: int|
                    0 <= j < state@.len() && (#[trigger] state@[j])@ is Unified
                        && state@[j]@->Unified_a == a;
                assert(holds(state@, state@[j]@));
                assert(derivable(
                    m,
                    c,
                    (FactView::Unified { a, b: state@[j]@->Unified_b }),
                ));
            }
            if is_unified(m, c, a) {
                let b = choose|b: Alloc| #[trigger] derivable(m, c, (FactView::Unified { a, b }));
                let h = FactView::Unified { a, b };
                assert(holds(state@, h));
                let j = choose|j: int| 0 <= j < state@.len() && (#[trigger] state@[j])@ == h;
                assert(state@[j]@ is Unified && state@[j]@->Unified_a == a);
            }
        }
        assert forall|i: int| 0 <= i < t.allocs@.len() implies t.classes.root(i) == i by {
            assert(t.classes.parent@[i] is None);
        }
    }
    let mut k: usize = 0;
    while k < state.len()
        invariant
            k <= state.len(),
            forall|h: FactView|
                #![trigger holds(state@, h)]
                holds(state@, h) <==> derivable(m, c, h),
            t.wf(),
            t.alike_classes(m),
            ascending(t.allocs@),
            forall|a: Alloc|
                #![trigger t.allocs@.contains(a)]
                t.allocs@.contains(a) <==> is_unified(m, c, a),
            forall|i: int, j: int|
                #![trigger t.classes.root(i), t.classes.root(j)]
                0 <= i < t.allocs@.len() && 0 <= j < t.allocs@.len() && t.classes.root(i)
                    == t.classes.root(j) ==> in_class(m, c, t.allocs@[i], t.allocs@[j]),
            forall|f: int, i: int, j: int|
                #![trigger state@[f], t.classes.root(i), t.classes.root(j)]
                0 <= f < k && 0 <= i < t.allocs@.len() && 0 <= j < t.allocs@.len() && state@[f]@
                    == (FactView::Unified { a: t.allocs@[i], b: t.allocs@[j] })
                    ==> t.classes.root(i) == t.classes.root(j),
        decreases state.len() - k,
    {
        if let Fact::Unified { a, b } = &state[k] {
            proof {
                assert(holds(state@, state@[k as int]@));
                assert(derivable(m, c, (FactView::Unified { a: *a, b: *b })));
                lemma_symmetric(m, c, *a, *b);
                assert(derivable(m, c, (FactView::Unified { a: *b, b: *a })));
                assert(is_unified(m, c, *a));
                assert(is_unified(m, c, *b));
                assert(t.allocs@.contains(*a));
                assert(t.allocs@.contains(*b));
            }
            let i = index_of(&t.allocs, *a).unwrap();
            let j = index_of(&t.allocs, *b).unwrap();
            let ghost before = t.classes;
            proof {
                crate::analysis::laws::law_unified_mergeable(m, c, *a, *b);
            }
            let _ = t.unite(i, j);
            proof {
                assert forall|p: int, q: int|
                    #![trigger t.classes.root(p), t.classes.root(q)]
                    0 <= p < t.allocs@.len() && 0 <= q < t.allocs@.len() && t.classes.root(p)
                        == t.classes.root(q) implies in_class(
                    m,
                    c,
                    t.allocs@[p],
                    t.allocs@[q],
                ) by {
                    assert forall|x: int, y: int|
                        #![trigger root_of(before.parent@, x), root_of(before.parent@, y)]
                        0 <= x < t.allocs@.len() && 0 <= y < t.allocs@.len() && root_of(
                            before.parent@,
                            x,
                        ) == root_of(before.parent@, y) implies in_class(
                        m,
                        c,
                        t.allocs@[x],
                        t.allocs@[y],
                    ) by {
                        assert(before.root(x) == before.root(y));
                    }
                    assert(t.classes.root(p) == t.classes.root(q));
                    lemma_joined_classes(m, c, t.allocs@, before.parent@, i as int, j as int, p, q);
                }
                assert forall|f: int, p: int, q: int|
                    #![trigger state@[f], t.classes.root(p), t.classes.root(q)]
                    0 <= f < k + 1 && 0 <= p < t.allocs@.len() && 0 <= q < t.allocs@.len()
                        && state@[f]@ == (FactView::Unified {
                        a: t.allocs@[p],
                        b: t.allocs@[q],
                    }) implies t.classes.root(p) == t.classes.root(q) by {
                    if f < k {
                        assert(before.root(p) == before.root(q));
                    } else {
                        lemma_ascending_distinct(t.allocs@, p, i as int);
                        lemma_ascending_distinct(t.allocs@, q, j as int);
                    }
                }
            }
        }
        k += 1;
    }
    proof {
        assert forall|i: int, j: int|
            #![trigger t.classes.root(i), t.classes.root(j)]
            0 <= i < t.allocs@.len() && 0 <= j < t.allocs@.len() implies (t.classes.root(i)
            == t.classes.root(j) <==> in_class(m, c, t.allocs@[i], t.allocs@[j])) by {
            if in_class(m, c, t.allocs@[i], t.allocs@[j]) {
                if t.allocs@[i] == t.allocs@[j] {
                    lemma_ascending_distinct(t.allocs@, i, j);
                } else {
                    let h = FactView::Unified { a: t.allocs@[i], b: t.allocs@[j] };
                    assert(holds(state@, h));
                    let f = choose|f: int| 0 <= f < state@.len() && (#[trigger] state@[f])@ == h;
                    assert(t.classes.root(i) == t.classes.root(j));
                }
            }
        }
    }
    t
}

/// An ascending list holds no allocation twice.
proof fn lemma_ascending_distinct(allocs: Seq<Alloc>, i: int, j: int)
    requires
        ascending(allocs),
        0 <= i < allocs.len(),
        0 <= j < allocs.len(),
        allocs[i] == allocs[j],
    ensures
        i == j,
{
    lemma_precedes_irreflexive(allocs[i]);
    if i < j {
        assert(allocs[i].precedes(allocs[j]));
    } else if j < i {
        assert(allocs[j].precedes(allocs[i]));
    }
}

/// After the classes of two unified allocations were joined, every class
/// still holds unified allocations only.
proof fn lemma_joined_classes(
    m: Module,
    c: Setup,
    allocs: Seq<Alloc>,
    before: Seq<Option<usize>>,
    i: int,
    j: int,
    p: int,
    q: int,
)
    requires
        0 <= i < allocs.len(),
        0 <= j < allocs.len(),
        0 <= p < allocs.len(),
        0 <= q < allocs.len(),
        in_class(m, c, allocs[i], allocs[j]),
        forall|x: int, y: int|
            #![trigger root_of(before, x), root_of(before, y)]
            0 <= x < allocs.len() && 0 <= y < allocs.len() && root_of(before, x) == root_of(
                before,
                y,
            ) ==> in_class(m, c, allocs[x], allocs[y]),
        root_of(before, p) == root_of(before, q) || ((root_of(before, p) == root_of(before, i)
            || root_of(before, p) == root_of(before, j)) && (root_of(before, q) == root_of(
            before,
            i,
        ) || root_of(before, q) == root_of(before, j))),
    ensures
        in_class(m, c, allocs[p], allocs[q]),
{
    if root_of(before, p) != root_of(before, q) {
        if allocs[i] != allocs[j] {
            lemma_symmetric(m, c, allocs[i], allocs[j]);
        }
        assert(in_class(m, c, allocs[j], allocs[i]));
        if root_of(before, p) == root_of(before, i) {
            assert(in_class(m, c, allocs[p], allocs[i]));
            assert(root_of(before, q) == root_of(before, j));
            assert(in_class(m, c, allocs[j], allocs[q]));
            lemma_in_class_transitive(m, c, allocs[p], allocs[i], allocs[j]);
            lemma_in_class_transitive(m, c, allocs[p], allocs[j], allocs[q]);
        } else {
            assert(in_class(m, c, allocs[p], allocs[j]));
            assert(root_of(before, q) == root_of(before, i));
            assert(in_class(m, c, allocs[i], allocs[q]));
            lemma_in_class_transitive(m, c, allocs[p], allocs[j], allocs[i]);
            lemma_in_class_transitive(m, c, allocs[p], allocs[i], allocs[q]);
        }
    }
}

/// The representative of the class of `a`: the root of its class in the
/// forest, or `a` itself where it is unified with nothing.
pub(crate) fn representative(
    t: &mut Allocations,
    a: Alloc,
    Ghost(m): Ghost<Module>,
    Ghost(c): Ghost<Setup>,
) -> (r: Alloc)
    requires
        describes_classes(m, c, *old(t)),
    ensures
        describes_classes(m, c, *final(t)),
        is_representative(m, c, a, r),
{
    match index_of(&t.allocs, a) {
        None => {
            proof {
                lemma_precedes_irreflexive(a);
                assert forall|b: Alloc| #[trigger] in_class(m, c, a, b) implies !b.precedes(a) by {
                    if b != a {
                        assert(is_unified(m, c, a));
                    }
                }
            }
            a
        },
        Some(i) => {
            let ghost before = *t;
            let r = t.lookup(i);
            proof {
                let root = before.classes.root(i as int);
                lemma_root(before.classes.parent@, i as int);
                crate::union::law_lookup_idempotent(before.classes.parent@, i as int);
                assert(before.classes.root(root) == before.classes.root(i as int));
                assert(in_class(m, c, before.allocs@[root], before.allocs@[i as int]));
                assert(in_class(m, c, before.allocs@[i as int], before.allocs@[root]));
                assert forall|b: Alloc| #[trigger] in_class(m, c, a, b) implies !b.precedes(r) by {
                    if b == a {
                        if root < i {
                            assert(before.allocs@[root].precedes(before.allocs@[i as int]));
                            if a.precedes(r) {
                                lemma_precedes_transitive(a, r, a);
                                lemma_precedes_irreflexive(a);
                            }
                        } else {
                            lemma_precedes_irreflexive(a);
                        }
                    } else {
                        // `b` is unified with `a`, so it is listed, in the class of `a`.
                        assert(derivable(m, c, (FactView::Unified { a, b })));
                        lemma_symmetric(m, c, a, b);
                        assert(is_unified(m, c, b));
                        assert(before.allocs@.contains(b));
                        let j = choose|j: int|
                            0 <= j < before.allocs@.len() && before.allocs@[j] == b;
                        assert(before.classes.root(i as int) == before.classes.root(j));
                        lemma_root(before.classes.parent@, j);
                        if root < j {
                            assert(before.allocs@[root].precedes(before.allocs@[j]));
                            if b.precedes(r) {
                                lemma_precedes_transitive(b, r, b);
                                lemma_precedes_irreflexive(b);
                            }
                        } else {
                            lemma_precedes_irreflexive(b);
                        }
                    }
                }
                assert forall|x: int, y: int|
                    #![trigger t.classes.root(x), t.classes.root(y)]
                    0 <= x < t.allocs@.len() && 0 <= y < t.allocs@.len() implies (t.classes.root(
                    x,
                ) == t.classes.root(y) <==> in_class(m, c, t.allocs@[x], t.allocs@[y])) by {
                    assert(before.classes.root(x) == before.classes.root(y) <==> in_class(
                        m,
                        c,
                        before.allocs@[x],
                        before.allocs@[y],
                    ));
                }
            }
            r
        },
    }
}

/// Being unified is symmetric, whichever analysis is run.
proof fn lemma_symmetric(m: Module, c: Setup, a: Alloc, b: Alloc)
    requires
        derivable(m, c, FactView::Unified { a, b }),
    ensures
        derivable(m, c, FactView::Unified { a: b, b: a }),
{
    if c.callgraph is Some {
        crate::analysis::laws::law_only_points_to_unifies(m, c, a, b);
    } else {
        crate::analysis::laws::law_unified_symmetric(m, c, a, b);
    }
}

/// Without unification no allocation is listed as unified: every
/// allocation is in a class of its own, and none has a parent.
pub proof fn law_no_unification_no_classes(m: Module, c: Setup, t: Allocations)
    requires
        !c.unification,
        describes_classes(m, c, t),
    ensures
        t.allocs@.len() == 0,
        t.classes.parent@.len() == 0,
{
    if t.allocs@.len() > 0 {
        let a = t.allocs@[0];
        assert(t.allocs@.contains(a));
        let b = choose|b: Alloc| #[trigger] derivable(m, c, (FactView::Unified { a, b }));
        if c.callgraph is Some {
            crate::analysis::laws::law_only_points_to_unifies(m, c, a, b);
        } else {
            crate::analysis::laws::law_no_unification(m, c, a, b);
        }
    }
}

} // verus!
