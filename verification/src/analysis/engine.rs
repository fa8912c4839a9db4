//! The evaluation of the rules to their least fixed point.

use crate::analysis::dispatch::{
    derive_alone, derive_alone_at, derive_both, derive_both_at, derive_start,
};
use crate::analysis::facts::{contains_fact, holds, lemma_push_holds, Fact, FactView};
use crate::analysis::rules::{
    alone, alone_at, both, both_at, derivable, derivable_in, pair, single, start, step, Setup,
};
use crate::llvm::name::InstructionName;
use crate::llvm::Module;
use vstd::prelude::*;

verus! {

/// Whether no two facts of the list say the same.
pub open spec fn distinct(facts: Seq<Fact>) -> bool {
    forall|i: int, j: int|
        0 <= i < j < facts.len() ==> (#[trigger] facts[i])@ != (#[trigger] facts[j])@
}

/// Whether every fact of the list is derivable.
pub open spec fn sound(m: Module, c: Setup, facts: Seq<Fact>) -> bool {
    forall|i: int| 0 <= i < facts.len() ==> derivable(m, c, (#[trigger] facts[i])@)
}

/// Whether the list holds every initial fact and, with any two of its
/// facts, what follows from them by one rule.
pub open spec fn closed(m: Module, c: Setup, facts: Seq<Fact>) -> bool {
    &&& forall|h: FactView| start(m, c, h) ==> holds(facts, h)
    &&& forall|a: FactView, b: FactView, h: FactView|
        holds(facts, a) && holds(facts, b) && #[trigger] step(m, c, a, b, h) ==> holds(facts, h)
}

/// A derivation of some depth is one of every greater depth.
pub proof fn lemma_derivable_monotone(m: Module, c: Setup, n1: nat, n2: nat, h: FactView)
    requires
        n1 <= n2,
        derivable_in(m, c, n1, h),
    ensures
        derivable_in(m, c, n2, h),
    decreases n2,
{
    if n1 < n2 {
        lemma_derivable_monotone(m, c, n1, (n2 - 1) as nat, h);
    }
}

/// Every initial fact is derivable.
pub proof fn lemma_initial_derivable(m: Module, c: Setup, h: FactView)
    requires
        start(m, c, h),
    ensures
        derivable(m, c, h),
{
    assert(derivable_in(m, c, 0, h));
}

/// What follows from derivable facts by one rule is derivable.
pub proof fn lemma_step_derivable(m: Module, c: Setup, a: FactView, b: FactView, h: FactView)
    requires
        derivable(m, c, a),
        derivable(m, c, b),
        step(m, c, a, b, h),
    ensures
        derivable(m, c, h),
{
    let na = choose|n: nat| derivable_in(m, c, n, a);
    let nb = choose|n: nat| derivable_in(m, c, n, b);
    let n = if na <= nb {
        nb
    } else {
        na
    };
    lemma_derivable_monotone(m, c, na, n, a);
    lemma_derivable_monotone(m, c, nb, n, b);
    assert(derivable_in(m, c, n + 1, h));
}

/// A closed list holds every derivable fact.
pub proof fn lemma_closed_complete(m: Module, c: Setup, facts: Seq<Fact>, n: nat, h: FactView)
    requires
        closed(m, c, facts),
        derivable_in(m, c, n, h),
    ensures
        holds(facts, h),
    decreases n,
{
    if n == 0 {
    } else if derivable_in(m, c, (n - 1) as nat, h) {
        lemma_closed_complete(m, c, facts, (n - 1) as nat, h);
    } else {
        let (a, b) = choose|a: FactView, b: FactView|
            derivable_in(m, c, (n - 1) as nat, a) && derivable_in(m, c, (n - 1) as nat, b)
                && #[trigger] step(m, c, a, b, h);
        lemma_closed_complete(m, c, facts, (n - 1) as nat, a);
        lemma_closed_complete(m, c, facts, (n - 1) as nat, b);
    }
}

/// Whether the list names exactly the sites of the module.
pub open spec fn lists_sites(m: Module, sites: Seq<InstructionName>) -> bool {
    forall|s: InstructionName| #![trigger sites.contains(s)] sites.contains(s) <==> m.is_site(s)
}

/// Whether a rule with one premise may look at a site for the fact: only
/// for what is reachable and for what an operand denotes.
pub open spec fn has_site_rules(a: FactView) -> bool {
    a is Reachable || a is OperandPointsTo
}

/// Whether a rule with two premises may look at a site for the facts.
pub open spec fn have_site_rules(a: FactView, b: FactView) -> bool {
    ||| a is Reachable && (b is OperandPointsTo || b is OperandValue)
    ||| a is OperandPointsTo && (b is OperandPointsTo || b is AllocPointsTo)
}

proof fn lemma_no_site_alone(m: Module, c: Setup, s: InstructionName, a: FactView, h: FactView)
    requires
        !has_site_rules(a),
    ensures
        !alone_at(m, c, s, a, h),
{
}

proof fn lemma_no_site_both(
    m: Module,
    c: Setup,
    s: InstructionName,
    a: FactView,
    b: FactView,
    h: FactView,
)
    requires
        !have_site_rules(a, b),
    ensures
        !both_at(m, c, s, a, b, h),
{
}

fn looks_at_sites(a: &Fact) -> (r: bool)
    ensures
        r == has_site_rules(a@),
{
    match a {
        Fact::Reachable { .. } => true,
        Fact::OperandPointsTo { .. } => true,
        _ => false,
    }
}

fn look_at_sites(a: &Fact, b: &Fact) -> (r: bool)
    ensures
        r == have_site_rules(a@, b@),
{
    match (a, b) {
        (Fact::Reachable { .. }, Fact::OperandPointsTo { .. }) => true,
        (Fact::Reachable { .. }, Fact::OperandValue { .. }) => true,
        (Fact::OperandPointsTo { .. }, Fact::OperandPointsTo { .. }) => true,
        (Fact::OperandPointsTo { .. }, Fact::AllocPointsTo { .. }) => true,
        _ => false,
    }
}

/// What follows from `a` alone by one rule.
pub fn single_consequences(m: &Module, c: &Setup, sites: &Vec<InstructionName>, a: &Fact) -> (r: Vec<
    Fact,
>)
    requires
        lists_sites(*m, sites@),
    ensures
        forall|h: FactView| #![trigger holds(r@, h)] holds(r@, h) <==> single(*m, *c, a@, h),
{
    let mut out: Vec<Fact> = Vec::new();
    derive_alone(m, c, a, &mut out);
    if !looks_at_sites(a) {
        proof {
            assert forall|h: FactView| #![trigger holds(out@, h)]
                holds(out@, h) <==> single(*m, *c, a@, h) by {
                assert forall|s: InstructionName| !#[trigger] alone_at(*m, *c, s, a@, h) by {
                    lemma_no_site_alone(*m, *c, s, a@, h);
                }
            }
        }
        return out;
    }
    let mut k: usize = 0;
    while k < sites.len()
        invariant
            k <= sites.len(),
            lists_sites(*m, sites@),
            forall|h: FactView|
                #![trigger holds(out@, h)]
                holds(out@, h) <==> alone(*m, *c, a@, h) || exists|j: int|
                    0 <= j < k && #[trigger] alone_at(*m, *c, sites@[j], a@, h),
        decreases sites.len() - k,
    {
        let ghost before = out@;
        assert(sites@.contains(sites@[k as int]));
        derive_alone_at(m, c, sites[k], a, &mut out);
        assert forall|h: FactView| #![trigger holds(out@, h)]
            holds(out@, h) <==> alone(*m, *c, a@, h) || exists|j: int|
                0 <= j < k + 1 && #[trigger] alone_at(*m, *c, sites@[j], a@, h) by {
            assert(holds(before, h) <==> alone(*m, *c, a@, h) || exists|j: int|
                0 <= j < k && #[trigger] alone_at(*m, *c, sites@[j], a@, h));
            if alone_at(*m, *c, sites@[k as int], a@, h) {
            }
        }
        k += 1;
    }
    assert forall|h: FactView| #![trigger holds(out@, h)]
        holds(out@, h) <==> single(*m, *c, a@, h) by {
        if exists|s: InstructionName| m.is_site(s) && #[trigger] alone_at(*m, *c, s, a@, h) {
            let s = choose|s: InstructionName| m.is_site(s) && #[trigger] alone_at(*m, *c, s, a@, h);
            assert(sites@.contains(s));
            let j = choose|j: int| 0 <= j < sites@.len() && sites@[j] == s;
            assert(alone_at(*m, *c, sites@[j], a@, h));
        }
        if exists|j: int| 0 <= j < k && #[trigger] alone_at(*m, *c, sites@[j], a@, h) {
            let j = choose|j: int| 0 <= j < k && #[trigger] alone_at(*m, *c, sites@[j], a@, h);
            assert(sites@.contains(sites@[j]));
        }
    }
    out
}

/// What follows from `a` and `b` together by one rule.
pub fn pair_consequences(
    m: &Module,
    c: &Setup,
    sites: &Vec<InstructionName>,
    a: &Fact,
    b: &Fact,
) -> (r: Vec<Fact>)
    requires
        lists_sites(*m, sites@),
    ensures
        forall|h: FactView| #![trigger holds(r@, h)] holds(r@, h) <==> pair(*m, *c, a@, b@, h),
{
    let mut out: Vec<Fact> = Vec::new();
    derive_both(m, c, a, b, &mut out);
    if !look_at_sites(a, b) {
        proof {
            assert forall|h: FactView| #![trigger holds(out@, h)]
                holds(out@, h) <==> pair(*m, *c, a@, b@, h) by {
                assert forall|s: InstructionName| !#[trigger] both_at(*m, *c, s, a@, b@, h) by {
                    lemma_no_site_both(*m, *c, s, a@, b@, h);
                }
            }
        }
        return out;
    }
    let mut k: usize = 0;
    while k < sites.len()
        invariant
            k <= sites.len(),
            lists_sites(*m, sites@),
            forall|h: FactView|
                #![trigger holds(out@, h)]
                holds(out@, h) <==> both(*m, *c, a@, b@, h) || exists|j: int|
                    0 <= j < k && #[trigger] both_at(*m, *c, sites@[j], a@, b@, h),
        decreases sites.len() - k,
    {
        let ghost before = out@;
        assert(sites@.contains(sites@[k as int]));
        derive_both_at(m, c, sites[k], a, b, &mut out);
        assert forall|h: FactView| #![trigger holds(out@, h)]
            holds(out@, h) <==> both(*m, *c, a@, b@, h) || exists|j: int|
                0 <= j < k + 1 && #[trigger] both_at(*m, *c, sites@[j], a@, b@, h) by {
            assert(holds(before, h) <==> both(*m, *c, a@, b@, h) || exists|j: int|
                0 <= j < k && #[trigger] both_at(*m, *c, sites@[j], a@, b@, h));
            if both_at(*m, *c, sites@[k as int], a@, b@, h) {
            }
        }
        k += 1;
    }
    assert forall|h: FactView| #![trigger holds(out@, h)]
        holds(out@, h) <==> pair(*m, *c, a@, b@, h) by {
        if exists|s: InstructionName| m.is_site(s) && #[trigger] both_at(*m, *c, s, a@, b@, h) {
            let s = choose|s: InstructionName|
                m.is_site(s) && #[trigger] both_at(*m, *c, s, a@, b@, h);
            assert(sites@.contains(s));
            let j = choose|j: int| 0 <= j < sites@.len() && sites@[j] == s;
            assert(both_at(*m, *c, sites@[j], a@, b@, h));
        }
        if exists|j: int| 0 <= j < k && #[trigger] both_at(*m, *c, sites@[j], a@, b@, h) {
            let j = choose|j: int| 0 <= j < k && #[trigger] both_at(*m, *c, sites@[j], a@, b@, h);
            assert(sites@.contains(sites@[j]));
        }
    }
    out
}

/// Adds to `state` the facts of `new` that it does not hold yet.
fn absorb(state: &mut Vec<Fact>, new: Vec<Fact>)
    requires
        distinct(old(state)@),
    ensures
        distinct(final(state)@),
        old(state)@.len() <= final(state)@.len(),
        final(state)@.subrange(0, old(state)@.len() as int) == old(state)@,
        forall|h: FactView|
            #![trigger holds(final(state)@, h)]
            holds(final(state)@, h) <==> holds(old(state)@, h) || holds(new@, h),
        forall|i: int|
            old(state)@.len() <= i < final(state)@.len() ==> holds(new@, (#[trigger] final(state)@[i])@),
{
    let mut rest = new;
    let ghost all = rest@;
    while rest.len() > 0
        invariant
            distinct(state@),
            old(state)@.len() <= state@.len(),
            state@.subrange(0, old(state)@.len() as int) == old(state)@,
            rest@ == all.subrange(0, rest@.len() as int),
            rest@.len() <= all.len(),
            forall|h: FactView|
                #![trigger holds(state@, h)]
                holds(state@, h) <==> holds(old(state)@, h) || exists|j: int|
                    rest@.len() <= j < all.len() && (#[trigger] all[j])@ == h,
            forall|i: int|
                old(state)@.len() <= i < state@.len() ==> holds(all, (#[trigger] state@[i])@),
        decreases rest.len(),
    {
        let ghost before = state@;
        let ghost n = rest@.len();
        let f = rest.pop().unwrap();
        assert(f == all[n - 1]);
        assert(rest@ =~= all.subrange(0, rest@.len() as int));
        if !contains_fact(state, &f) {
            state.push(f);
            assert(state@.subrange(0, old(state)@.len() as int) =~= old(state)@);
            assert forall|i: int, j: int| 0 <= i < j < state@.len() implies (#[trigger] state@[i])@
                != (#[trigger] state@[j])@ by {
                if j == before.len() {
                    assert(before[i]@ != f@);
                }
            }
            assert forall|h: FactView| #![trigger holds(state@, h)]
                holds(state@, h) <==> holds(old(state)@, h) || exists|j: int|
                    rest@.len() <= j < all.len() && (#[trigger] all[j])@ == h by {
                lemma_push_holds(before, f, h);
                assert(holds(before, h) <==> holds(old(state)@, h) || exists|j: int|
                    n <= j < all.len() && (#[trigger] all[j])@ == h);
                if f@ == h {
                    assert(all[n - 1]@ == h);
                }
            }
            assert forall|i: int| old(state)@.len() <= i < state@.len() implies holds(
                all,
                (#[trigger] state@[i])@,
            ) by {
                if i == before.len() {
                    assert(all[n - 1]@ == state@[i]@);
                } else {
                    assert(state@[i] == before[i]);
                }
            }
        } else {
            assert forall|h: FactView| #![trigger holds(state@, h)]
                holds(state@, h) <==> holds(old(state)@, h) || exists|j: int|
                    rest@.len() <= j < all.len() && (#[trigger] all[j])@ == h by {
                assert(holds(before, h) <==> holds(old(state)@, h) || exists|j: int|
                    n <= j < all.len() && (#[trigger] all[j])@ == h);
                if f@ == h {
                    assert(all[n - 1]@ == h);
                }
            }
        }
    }
}

/// The least set of facts that holds the initial facts and is closed under
/// the rules, each fact once.
pub fn saturate(m: &Module, c: &Setup) -> (state: Vec<Fact>)
    ensures
        distinct(state@),
        forall|h: FactView| #![trigger holds(state@, h)] holds(state@, h) <==> derivable(*m, *c, h),
{
    let sites = m.sites();
    let mut state: Vec<Fact> = Vec::new();
    let mut init: Vec<Fact> = Vec::new();
    derive_start(m, c, &mut init);
    assert forall|h: FactView| holds(init@, h) <==> start(*m, *c, h) by {
        assert(!holds(Seq::<Fact>::empty(), h));
    }
    absorb(&mut state, init);
    assert forall|i: int| 0 <= i < state@.len() implies derivable(*m, *c, (#[trigger] state@[i])@) by {
        lemma_initial_derivable(*m, *c, state@[i]@);
    }
    assert forall|h: FactView| start(*m, *c, h) implies holds(state@, h) by {
        assert(!holds(Seq::<Fact>::empty(), h));
    }
    let mut i: usize = 0;
    while i < state.len()
        invariant
            i <= state.len(),
            lists_sites(*m, sites@),
            distinct(state@),
            sound(*m, *c, state@),
            forall|h: FactView| start(*m, *c, h) ==> holds(state@, h),
            forall|x: int, h: FactView|
                0 <= x < i && single(*m, *c, (#[trigger] state@[x])@, h) ==> #[trigger] holds(state@, h),
            forall|x: int, y: int, h: FactView|
                0 <= x < i && 0 <= y < i && #[trigger] pair(*m, *c, state@[x]@, state@[y]@, h)
                    ==> holds(state@, h),
        decreases usize::MAX - i,
    {
        let a = state[i].clone();
        let ghost begun = state@;
        let new = single_consequences(m, c, &sites, &a);
        absorb(&mut state, new);
        proof {
            lemma_extended(*m, *c, begun, state@, i as int);
            assert forall|k: int| 0 <= k < state@.len() implies derivable(
                *m,
                *c,
                (#[trigger] state@[k])@,
            ) by {
                if k >= begun.len() {
                    assert(holds(new@, state@[k]@));
                    assert(derivable(*m, *c, begun[i as int]@));
                    lemma_step_derivable(*m, *c, a@, a@, state@[k]@);
                } else {
                    assert(state@[k] == begun[k]);
                }
            }
        }
        let mut j: usize = 0;
        while j <= i
            invariant
                j <= i + 1,
                i < state.len(),
                a@ == state@[i as int]@,
                lists_sites(*m, sites@),
                distinct(state@),
                sound(*m, *c, state@),
                forall|h: FactView| start(*m, *c, h) ==> holds(state@, h),
                forall|x: int, h: FactView|
                    0 <= x <= i && single(*m, *c, (#[trigger] state@[x])@, h) ==> #[trigger] holds(
                        state@,
                        h,
                    ),
                forall|x: int, y: int, h: FactView|
                    0 <= x < i && 0 <= y < i && #[trigger] pair(*m, *c, state@[x]@, state@[y]@, h)
                        ==> holds(state@, h),
                forall|y: int, h: FactView|
                    0 <= y < j && #[trigger] pair(*m, *c, state@[i as int]@, state@[y]@, h)
                        ==> holds(state@, h),
                forall|y: int, h: FactView|
                    0 <= y < j && #[trigger] pair(*m, *c, state@[y]@, state@[i as int]@, h)
                        ==> holds(state@, h),
            decreases i + 1 - j,
        {
            let b = state[j].clone();
            let ghost mid = state@;
            let forward = pair_consequences(m, c, &sites, &a, &b);
            let backward = pair_consequences(m, c, &sites, &b, &a);
            absorb(&mut state, forward);
            let ghost mid2 = state@;
            absorb(&mut state, backward);
            proof {
                assert forall|k: int| 0 <= k < mid.len() implies state@[k] == mid[k] by {
                    assert(mid2[k] == mid2.subrange(0, mid.len() as int)[k]);
                    assert(state@[k] == state@.subrange(0, mid2.len() as int)[k]);
                }
                assert forall|h: FactView| holds(mid, h) implies holds(state@, h) by {
                    assert(holds(mid2, h));
                }
                assert forall|k: int| 0 <= k < state@.len() implies derivable(
                    *m,
                    *c,
                    (#[trigger] state@[k])@,
                ) by {
                    if k >= mid2.len() {
                        assert(holds(backward@, state@[k]@));
                        assert(derivable(*m, *c, mid[i as int]@));
                        assert(derivable(*m, *c, mid[j as int]@));
                        lemma_step_derivable(*m, *c, b@, a@, state@[k]@);
                    } else if k >= mid.len() {
                        assert(state@[k] == state@.subrange(0, mid2.len() as int)[k]);
                        assert(holds(forward@, mid2[k]@));
                        assert(derivable(*m, *c, mid[i as int]@));
                        assert(derivable(*m, *c, mid[j as int]@));
                        lemma_step_derivable(*m, *c, a@, b@, state@[k]@);
                    } else {
                        assert(state@[k] == mid[k]);
                    }
                }
                assert forall|y: int, h: FactView|
                    0 <= y < j + 1 && #[trigger] pair(
                        *m,
                        *c,
                        state@[i as int]@,
                        state@[y]@,
                        h,
                    ) implies holds(state@, h) by {
                    if y == j {
                        assert(holds(forward@, h));
                        assert(holds(mid2, h));
                    } else {
                        assert(pair(*m, *c, mid[i as int]@, mid[y]@, h));
                    }
                }
                assert forall|y: int, h: FactView|
                    0 <= y < j + 1 && #[trigger] pair(
                        *m,
                        *c,
                        state@[y]@,
                        state@[i as int]@,
                        h,
                    ) implies holds(state@, h) by {
                    if y == j {
                        assert(holds(backward@, h));
                    } else {
                        assert(pair(*m, *c, mid[y]@, mid[i as int]@, h));
                    }
                }
                assert forall|x: int, y: int, h: FactView|
                    0 <= x < i && 0 <= y < i && #[trigger] pair(
                        *m,
                        *c,
                        state@[x]@,
                        state@[y]@,
                        h,
                    ) implies holds(state@, h) by {
                    assert(pair(*m, *c, mid[x]@, mid[y]@, h));
                }
                assert forall|x: int, h: FactView|
                    0 <= x <= i && single(*m, *c, (#[trigger] state@[x])@, h) implies #[trigger] holds(
                        state@,
                        h,
                    ) by {
                    assert(single(*m, *c, mid[x]@, h));
                }
            }
            j += 1;
        }
        i += 1;
    }
    proof {
        assert forall|a: FactView, b: FactView, h: FactView|
            holds(state@, a) && holds(state@, b) && #[trigger] step(*m, *c, a, b, h) implies holds(
            state@,
            h,
        ) by {
            let x = choose|x: int| 0 <= x < state@.len() && (#[trigger] state@[x])@ == a;
            let y = choose|y: int| 0 <= y < state@.len() && (#[trigger] state@[y])@ == b;
            if single(*m, *c, a, h) {
                assert(single(*m, *c, state@[x]@, h));
            } else {
                assert(pair(*m, *c, state@[x]@, state@[y]@, h));
            }
        }
        assert(closed(*m, *c, state@));
        assert forall|h: FactView| #![trigger holds(state@, h)]
            holds(state@, h) <==> derivable(*m, *c, h) by {
            if derivable(*m, *c, h) {
                let n = choose|n: nat| derivable_in(*m, *c, n, h);
                lemma_closed_complete(*m, *c, state@, n, h);
            }
            if holds(state@, h) {
                let x = choose|x: int| 0 <= x < state@.len() && (#[trigger] state@[x])@ == h;
                assert(derivable(*m, *c, state@[x]@));
            }
        }
    }
    state
}

/// What was shown of a list of facts still holds of a list that extends it
/// by single consequences of its fact at `i`.
proof fn lemma_extended(m: Module, c: Setup, before: Seq<Fact>, after: Seq<Fact>, i: int)
    requires
        0 <= i < before.len(),
        before.len() <= after.len(),
        after.subrange(0, before.len() as int) == before,
        forall|h: FactView|
            #![trigger holds(after, h)]
            holds(after, h) <==> holds(before, h) || single(m, c, before[i]@, h),
        forall|h: FactView| start(m, c, h) ==> holds(before, h),
        forall|x: int, h: FactView|
            0 <= x < i && single(m, c, (#[trigger] before[x])@, h) ==> #[trigger] holds(before, h),
        forall|x: int, y: int, h: FactView|
            0 <= x < i && 0 <= y < i && #[trigger] pair(m, c, before[x]@, before[y]@, h) ==> holds(
                before,
                h,
            ),
    ensures
        forall|k: int| 0 <= k < before.len() ==> after[k] == before[k],
        forall|h: FactView| start(m, c, h) ==> holds(after, h),
        forall|x: int, h: FactView|
            0 <= x <= i && single(m, c, (#[trigger] after[x])@, h) ==> #[trigger] holds(after, h),
        forall|x: int, y: int, h: FactView|
            0 <= x < i && 0 <= y < i && #[trigger] pair(m, c, after[x]@, after[y]@, h) ==> holds(
                after,
                h,
            ),
{
    assert forall|k: int| 0 <= k < before.len() implies after[k] == before[k] by {
        assert(after[k] == after.subrange(0, before.len() as int)[k]);
    }
    assert forall|x: int, h: FactView|
        0 <= x <= i && single(m, c, (#[trigger] after[x])@, h) implies #[trigger] holds(after, h) by {
        assert(after[x] == before[x]);
        if x < i {
            assert(holds(before, h));
        }
    }
    assert forall|x: int, y: int, h: FactView|
        0 <= x < i && 0 <= y < i && #[trigger] pair(m, c, after[x]@, after[y]@, h) implies holds(
        after,
        h,
    ) by {
        assert(after[x] == before[x]);
        assert(after[y] == before[y]);
        assert(pair(m, c, before[x]@, before[y]@, h));
        assert(holds(before, h));
    }
}

} // verus!
