//! What holds of every least fixed point of the rules.

use crate::allocation::{lemma_precedes_irreflexive, Alloc};
use crate::analysis::canonical::{in_class, is_representative};
use crate::analysis::engine::lemma_step_derivable;
use crate::analysis::facts::FactView;
use crate::analysis::output::{
    call_row, counts_as, edge_row, function_row, has_call, has_edge, has_points_to, is_count,
    points_to_row, Counted, Listed,
};
use crate::analysis::pointer::OutputRelations;
use crate::analysis::rules::{
    constant_points_to, parameter_operand, rule_unify, rule_unify_transitive,
};
use crate::llvm::constant::Constant;
use crate::llvm::operand::Operand;
use crate::analysis::rules::{
    alone, alone_at, binary, binary_at, both, both_at, derivable, derivable_in, is_main_name, step,
    unary, unary_at, Setup,
};
use crate::llvm::name::{FunctionId, InstructionName};
use crate::llvm::Module;
use vstd::prelude::*;

verus! {

/// The callee of every call is reachable in the callee's context.
pub proof fn law_calls_reach(
    m: Module,
    c: Setup,
    ctx: Seq<InstructionName>,
    site: InstructionName,
    callee: FunctionId,
    callee_ctx: Seq<InstructionName>,
)
    requires
        derivable(m, c, FactView::Calls { ctx, site, callee, callee_ctx }),
    ensures
        derivable(m, c, FactView::Reachable { ctx: callee_ctx, function: callee }),
{
    let a = FactView::Calls { ctx, site, callee, callee_ctx };
    let h = FactView::Reachable { ctx: callee_ctx, function: callee };
    assert(unary(m, c, a, h));
    lemma_step_derivable(m, c, a, a, h);
}

/// The derivable facts are at quiescence: what follows from them by one
/// rule is derivable already.
pub proof fn law_quiescent(m: Module, c: Setup, a: FactView, b: FactView, h: FactView)
    requires
        derivable(m, c, a),
        derivable(m, c, b),
        step(m, c, a, b, h),
    ensures
        derivable(m, c, h),
{
    lemma_step_derivable(m, c, a, b, h);
}

/// Whether every context that the fact names is empty.
pub open spec fn contexts_empty(h: FactView) -> bool {
    match h {
        FactView::Reachable { ctx, function } => ctx.len() == 0,
        FactView::Calls { ctx, site, callee, callee_ctx } => ctx.len() == 0 && callee_ctx.len()
            == 0,
        FactView::OperandPointsTo { ctx, operand, alloc } => ctx.len() == 0,
        FactView::Memcpy { ctx, dst, src, size } => ctx.len() == 0,
        FactView::MemcpySource { ctx, dst, source } => ctx.len() == 0,
        FactView::OperandValue { ctx, operand, value } => ctx.len() == 0,
        FactView::Operated { ctx, site } => ctx.len() == 0,
        _ => true,
    }
}

proof fn lemma_step_keeps_contexts_empty(
    m: Module,
    c: Setup,
    a: FactView,
    b: FactView,
    h: FactView,
)
    requires
        c.contexts == 0,
        contexts_empty(a),
        contexts_empty(b),
        step(m, c, a, b, h),
    ensures
        contexts_empty(h),
{
    if alone(m, c, a, h) {
    } else if both(m, c, a, b, h) {
    } else if exists|s: InstructionName| m.is_site(s) && #[trigger] alone_at(m, c, s, a, h) {
        let s = choose|s: InstructionName| m.is_site(s) && #[trigger] alone_at(m, c, s, a, h);
        assert(alone_at(m, c, s, a, h));
    } else {
        let s = choose|s: InstructionName| m.is_site(s) && #[trigger] both_at(m, c, s, a, b, h);
        assert(both_at(m, c, s, a, b, h));
    }
}

proof fn lemma_contexts_empty(m: Module, c: Setup, n: nat, h: FactView)
    requires
        c.contexts == 0,
        derivable_in(m, c, n, h),
    ensures
        contexts_empty(h),
    decreases n,
{
    if n == 0 {
    } else if derivable_in(m, c, (n - 1) as nat, h) {
        lemma_contexts_empty(m, c, (n - 1) as nat, h);
    } else {
        let (a, b) = choose|a: FactView, b: FactView|
            derivable_in(m, c, (n - 1) as nat, a) && derivable_in(m, c, (n - 1) as nat, b)
                && #[trigger] step(m, c, a, b, h);
        lemma_contexts_empty(m, c, (n - 1) as nat, a);
        lemma_contexts_empty(m, c, (n - 1) as nat, b);
        lemma_step_keeps_contexts_empty(m, c, a, b, h);
    }
}

/// Where contexts keep no call site, every context is the empty one.
pub proof fn law_insensitive(m: Module, c: Setup, h: FactView)
    requires
        c.contexts == 0,
        derivable(m, c, h),
    ensures
        contexts_empty(h),
{
    let n = choose|n: nat| derivable_in(m, c, n, h);
    lemma_contexts_empty(m, c, n, h);
}

/// Whether every context that the fact names holds `k` call sites at most.
pub open spec fn contexts_within(h: FactView, k: nat) -> bool {
    match h {
        FactView::Reachable { ctx, function } => ctx.len() <= k,
        FactView::Calls { ctx, site, callee, callee_ctx } => ctx.len() <= k && callee_ctx.len()
            <= k,
        FactView::OperandPointsTo { ctx, operand, alloc } => ctx.len() <= k,
        FactView::Memcpy { ctx, dst, src, size } => ctx.len() <= k,
        FactView::MemcpySource { ctx, dst, source } => ctx.len() <= k,
        FactView::OperandValue { ctx, operand, value } => ctx.len() <= k,
        FactView::Operated { ctx, site } => ctx.len() <= k,
        _ => true,
    }
}

proof fn lemma_contexts_within(m: Module, c: Setup, n: nat, h: FactView)
    requires
        derivable_in(m, c, n, h),
    ensures
        contexts_within(h, c.contexts as nat),
    decreases n,
{
    if n == 0 {
    } else if derivable_in(m, c, (n - 1) as nat, h) {
        lemma_contexts_within(m, c, (n - 1) as nat, h);
    } else {
        let (a, b) = choose|a: FactView, b: FactView|
            derivable_in(m, c, (n - 1) as nat, a) && derivable_in(m, c, (n - 1) as nat, b)
                && #[trigger] step(m, c, a, b, h);
        lemma_contexts_within(m, c, (n - 1) as nat, a);
        lemma_contexts_within(m, c, (n - 1) as nat, b);
        if alone(m, c, a, h) {
        } else if both(m, c, a, b, h) {
        } else if exists|s: InstructionName| m.is_site(s) && #[trigger] alone_at(m, c, s, a, h) {
            let s = choose|s: InstructionName| m.is_site(s) && #[trigger] alone_at(m, c, s, a, h);
            assert(alone_at(m, c, s, a, h));
        } else {
            let s = choose|s: InstructionName|
                m.is_site(s) && #[trigger] both_at(m, c, s, a, b, h);
            assert(both_at(m, c, s, a, b, h));
        }
    }
}

/// No context holds more call sites than the analysis keeps.
pub proof fn law_contexts_bounded(m: Module, c: Setup, h: FactView)
    requires
        derivable(m, c, h),
    ensures
        contexts_within(h, c.contexts as nat),
{
    let n = choose|n: nat| derivable_in(m, c, n, h);
    lemma_contexts_within(m, c, n, h);
}

/// Every context of a result of the analysis is within its limit, which is
/// that of the analysis.
pub proof fn law_rows_within_limit(m: Module, c: Setup, out: OutputRelations)
    requires
        out.describes(m, c),
    ensures
        forall|k: int|
            0 <= k < out.operand_points_to@.len() ==> (#[trigger] out.operand_points_to@[k]).0.k
                == c.contexts && out.operand_points_to@[k].0.wf(),
        forall|k: int|
            0 <= k < out.calls@.len() ==> (#[trigger] out.calls@[k]).0.k == c.contexts
                && out.calls@[k].0.wf(),
{
    assert forall|k: int| 0 <= k < out.operand_points_to@.len() implies (
    #[trigger] out.operand_points_to@[k]).0.wf() by {
        let row = out.operand_points_to@[k];
        assert(has_points_to(out.operand_points_to@, row.0@, row.1, row.2));
        assert(points_to_row(m, c, row.0@, row.1, row.2));
        let a = choose|a: Alloc|
            #![trigger is_representative(m, c, a, row.2)]
            derivable(m, c, FactView::OperandPointsTo { ctx: row.0@, operand: row.1, alloc: a })
                && is_representative(m, c, a, row.2);
        law_contexts_bounded(
            m,
            c,
            FactView::OperandPointsTo { ctx: row.0@, operand: row.1, alloc: a },
        );
    }
    assert forall|k: int| 0 <= k < out.calls@.len() implies (#[trigger] out.calls@[k]).0.wf() by {
        let row = out.calls@[k];
        assert(has_call(out.calls@, row.0@, row.1, row.2));
        assert(call_row(m, c, row.0@, row.1, row.2));
        let callee_ctx = choose|callee_ctx: Seq<InstructionName>| #[trigger]
            derivable(m, c, (FactView::Calls { ctx: row.0@, site: row.1, callee: row.2, callee_ctx }));
        law_contexts_bounded(
            m,
            c,
            FactView::Calls { ctx: row.0@, site: row.1, callee: row.2, callee_ctx },
        );
    }
}

proof fn lemma_never_unified(m: Module, c: Setup, n: nat, h: FactView)
    requires
        !c.unification,
        derivable_in(m, c, n, h),
    ensures
        !(h is Unified),
    decreases n,
{
    if n == 0 {
    } else if derivable_in(m, c, (n - 1) as nat, h) {
        lemma_never_unified(m, c, (n - 1) as nat, h);
    } else {
        let (a, b) = choose|a: FactView, b: FactView|
            derivable_in(m, c, (n - 1) as nat, a) && derivable_in(m, c, (n - 1) as nat, b)
                && #[trigger] step(m, c, a, b, h);
        lemma_never_unified(m, c, (n - 1) as nat, a);
        lemma_never_unified(m, c, (n - 1) as nat, b);
        if alone(m, c, a, h) {
        } else if both(m, c, a, b, h) {
        } else if exists|s: InstructionName| m.is_site(s) && #[trigger] alone_at(m, c, s, a, h) {
            let s = choose|s: InstructionName| m.is_site(s) && #[trigger] alone_at(m, c, s, a, h);
            assert(alone_at(m, c, s, a, h));
        } else {
            let s = choose|s: InstructionName|
                m.is_site(s) && #[trigger] both_at(m, c, s, a, b, h);
            assert(both_at(m, c, s, a, b, h));
        }
    }
}

/// Only allocations that may be merged are unified: two distinct
/// allocations of one kind, two globals both constant or both not, two heap
/// objects of the same size.
pub proof fn law_unified_mergeable(m: Module, c: Setup, a: Alloc, b: Alloc)
    requires
        derivable(m, c, FactView::Unified { a, b }),
    ensures
        a.mergeable_spec(b, m),
{
    let n = choose|n: nat| derivable_in(m, c, n, FactView::Unified { a, b });
    lemma_unified_mergeable(m, c, n, FactView::Unified { a, b });
}

proof fn lemma_unified_mergeable(m: Module, c: Setup, n: nat, h: FactView)
    requires
        derivable_in(m, c, n, h),
    ensures
        h is Unified ==> h->Unified_a.mergeable_spec(h->Unified_b, m),
    decreases n,
{
    if n == 0 {
    } else if derivable_in(m, c, (n - 1) as nat, h) {
        lemma_unified_mergeable(m, c, (n - 1) as nat, h);
    } else {
        let (a, b) = choose|a: FactView, b: FactView|
            derivable_in(m, c, (n - 1) as nat, a) && derivable_in(m, c, (n - 1) as nat, b)
                && #[trigger] step(m, c, a, b, h);
        lemma_unified_mergeable(m, c, (n - 1) as nat, a);
        lemma_unified_mergeable(m, c, (n - 1) as nat, b);
        if alone(m, c, a, h) {
        } else if both(m, c, a, b, h) {
        } else if exists|s: InstructionName| m.is_site(s) && #[trigger] alone_at(m, c, s, a, h) {
            let s = choose|s: InstructionName| m.is_site(s) && #[trigger] alone_at(m, c, s, a, h);
            assert(alone_at(m, c, s, a, h));
        } else {
            let s = choose|s: InstructionName|
                m.is_site(s) && #[trigger] both_at(m, c, s, a, b, h);
            assert(both_at(m, c, s, a, b, h));
        }
    }
}

/// The analysis of integer values unifies nothing.
pub proof fn law_only_points_to_unifies(m: Module, c: Setup, a: Alloc, b: Alloc)
    requires
        c.callgraph is Some,
    ensures
        !derivable(m, c, FactView::Unified { a, b }),
{
    if derivable(m, c, FactView::Unified { a, b }) {
        let n = choose|n: nat| derivable_in(m, c, n, FactView::Unified { a, b });
        lemma_never_unified_values(m, c, n, FactView::Unified { a, b });
    }
}

proof fn lemma_never_unified_values(m: Module, c: Setup, n: nat, h: FactView)
    requires
        c.callgraph is Some,
        derivable_in(m, c, n, h),
    ensures
        !(h is Unified),
    decreases n,
{
    if n == 0 {
    } else if derivable_in(m, c, (n - 1) as nat, h) {
        lemma_never_unified_values(m, c, (n - 1) as nat, h);
    } else {
        let (a, b) = choose|a: FactView, b: FactView|
            derivable_in(m, c, (n - 1) as nat, a) && derivable_in(m, c, (n - 1) as nat, b)
                && #[trigger] step(m, c, a, b, h);
        if alone(m, c, a, h) {
        } else if both(m, c, a, b, h) {
        } else if exists|s: InstructionName| m.is_site(s) && #[trigger] alone_at(m, c, s, a, h) {
            let s = choose|s: InstructionName| m.is_site(s) && #[trigger] alone_at(m, c, s, a, h);
            assert(alone_at(m, c, s, a, h));
        } else {
            let s = choose|s: InstructionName|
                m.is_site(s) && #[trigger] both_at(m, c, s, a, b, h);
            assert(both_at(m, c, s, a, b, h));
        }
    }
}

/// Without unification no two allocations are unified.
pub proof fn law_no_unification(m: Module, c: Setup, a: Alloc, b: Alloc)
    requires
        !c.unification,
    ensures
        !derivable(m, c, FactView::Unified { a, b }),
{
    if derivable(m, c, FactView::Unified { a, b }) {
        let n = choose|n: nat| derivable_in(m, c, n, FactView::Unified { a, b });
        lemma_never_unified(m, c, n, FactView::Unified { a, b });
    }
}

/// Whether the module defines a function where a program starts.
pub open spec fn has_main(m: Module) -> bool {
    exists|f: int| 0 <= f < m.functions.len() && is_main_name((#[trigger] m.functions@[f]).name@)
}

/// Whether the fact is one that only a reachable function gives rise to.
pub open spec fn needs_reachable(h: FactView) -> bool {
    !(h is AllocPointsTo)
}

proof fn lemma_nothing_reachable(m: Module, c: Setup, n: nat, h: FactView)
    requires
        !has_main(m),
        derivable_in(m, c, n, h),
    ensures
        !needs_reachable(h),
    decreases n,
{
    if n == 0 {
        if needs_reachable(h) {
            if h is Reachable {
                let f = h->Reachable_function;
                assert(is_main_name(m.functions@[f as int].name@));
            } else {
                assert(h is OperandPointsTo);
                let f = choose|f: usize|
                    #![trigger m.functions@[f as int]]
                    f < m.functions.len() && is_main_name(m.functions@[f as int].name@)
                        && m.functions@[f as int].parameters.len() >= 2;
                assert(is_main_name(m.functions@[f as int].name@));
            }
        }
    } else if derivable_in(m, c, (n - 1) as nat, h) {
        lemma_nothing_reachable(m, c, (n - 1) as nat, h);
    } else {
        let (a, b) = choose|a: FactView, b: FactView|
            derivable_in(m, c, (n - 1) as nat, a) && derivable_in(m, c, (n - 1) as nat, b)
                && #[trigger] step(m, c, a, b, h);
        lemma_nothing_reachable(m, c, (n - 1) as nat, a);
        lemma_nothing_reachable(m, c, (n - 1) as nat, b);
        if alone(m, c, a, h) {
        } else if both(m, c, a, b, h) {
        } else if exists|s: InstructionName| m.is_site(s) && #[trigger] alone_at(m, c, s, a, h) {
            let s = choose|s: InstructionName| m.is_site(s) && #[trigger] alone_at(m, c, s, a, h);
            assert(alone_at(m, c, s, a, h));
        } else {
            let s = choose|s: InstructionName|
                m.is_site(s) && #[trigger] both_at(m, c, s, a, b, h);
            assert(both_at(m, c, s, a, b, h));
        }
    }
}

/// In a module without a function where a program starts nothing is
/// reachable, nothing is called, and no operand denotes anything: only
/// facts about what allocations point to are derivable.
pub proof fn law_no_main(m: Module, c: Setup, h: FactView)
    requires
        !has_main(m),
        derivable(m, c, h),
    ensures
        h is AllocPointsTo,
{
    let n = choose|n: nat| derivable_in(m, c, n, h);
    lemma_nothing_reachable(m, c, n, h);
}

// ----------------------------------------------------------------------
// Unification
proof fn lemma_unified_symmetric(m: Module, c: Setup, n: nat, a: Alloc, b: Alloc)
    requires
        c.callgraph is None,
        derivable_in(m, c, n, FactView::Unified { a, b }),
    ensures
        derivable(m, c, FactView::Unified { a: b, b: a }),
    decreases n,
{
    let h = FactView::Unified { a, b };
    let g = FactView::Unified { a: b, b: a };
    if n == 0 {
    } else if derivable_in(m, c, (n - 1) as nat, h) {
        lemma_unified_symmetric(m, c, (n - 1) as nat, a, b);
    } else {
        let (x, y) = choose|x: FactView, y: FactView|
            derivable_in(m, c, (n - 1) as nat, x) && derivable_in(m, c, (n - 1) as nat, y)
                && #[trigger] step(m, c, x, y, h);
        assert(derivable(m, c, x));
        assert(derivable(m, c, y));
        if unary(m, c, x, h) {
        } else if binary(m, c, x, y, h) {
            if rule_unify(m, c, x, y, h) {
                assert(rule_unify(m, c, y, x, g));
                assert(binary(m, c, y, x, g));
                lemma_step_derivable(m, c, y, x, g);
            } else {
                assert(rule_unify_transitive(m, c, x, y, h));
                let z = x->Unified_b;
                lemma_unified_symmetric(m, c, (n - 1) as nat, a, z);
                lemma_unified_symmetric(m, c, (n - 1) as nat, z, b);
                let p = FactView::Unified { a: b, b: z };
                let q = FactView::Unified { a: z, b: a };
                assert(rule_unify_transitive(m, c, p, q, g));
                assert(binary(m, c, p, q, g));
                lemma_step_derivable(m, c, p, q, g);
            }
        } else if exists|s: InstructionName| m.is_site(s) && #[trigger] unary_at(m, c, s, x, h) {
            let s = choose|s: InstructionName| m.is_site(s) && #[trigger] unary_at(m, c, s, x, h);
            assert(unary_at(m, c, s, x, h));
        } else {
            let s = choose|s: InstructionName|
                m.is_site(s) && #[trigger] binary_at(m, c, s, x, y, h);
            assert(binary_at(m, c, s, x, y, h));
        }
    }
}

/// Being unified is symmetric.
pub proof fn law_unified_symmetric(m: Module, c: Setup, a: Alloc, b: Alloc)
    requires
        derivable(m, c, FactView::Unified { a, b }),
    ensures
        derivable(m, c, FactView::Unified { a: b, b: a }),
{
    if c.callgraph is Some {
        law_only_points_to_unifies(m, c, a, b);
    } else {
        let n = choose|n: nat| derivable_in(m, c, n, FactView::Unified { a, b });
        lemma_unified_symmetric(m, c, n, a, b);
    }
}

/// The members of the class of a member of a class are the members of that
/// class.
pub proof fn lemma_class_of_member(m: Module, c: Setup, a: Alloc, r: Alloc, b: Alloc)
    requires
        in_class(m, c, a, r),
    ensures
        in_class(m, c, r, b) == in_class(m, c, a, b),
{
    if r != a && c.callgraph is Some {
        law_only_points_to_unifies(m, c, a, r);
    } else if r != a {
        law_unified_symmetric(m, c, a, r);
        let ar = FactView::Unified { a, b: r };
        let ra = FactView::Unified { a: r, b: a };
        if in_class(m, c, r, b) && b != a && b != r {
            let rb = FactView::Unified { a: r, b };
            let ab = FactView::Unified { a, b };
            assert(rule_unify_transitive(m, c, ar, rb, ab));
            assert(binary(m, c, ar, rb, ab));
            lemma_step_derivable(m, c, ar, rb, ab);
        }
        if in_class(m, c, a, b) && b != a && b != r {
            let ab = FactView::Unified { a, b };
            let rb = FactView::Unified { a: r, b };
            assert(rule_unify_transitive(m, c, ra, ab, rb));
            assert(binary(m, c, ra, ab, rb));
            lemma_step_derivable(m, c, ra, ab, rb);
        }
    }
}

/// Taking the representative is idempotent: the representative of a class
/// is its own representative.
pub proof fn law_representative_idempotent(m: Module, c: Setup, a: Alloc, r: Alloc)
    requires
        is_representative(m, c, a, r),
    ensures
        is_representative(m, c, r, r),
{
    assert forall|b: Alloc| #[trigger] in_class(m, c, r, b) implies !b.precedes(r) by {
        lemma_class_of_member(m, c, a, r, b);
        assert(in_class(m, c, a, b));
    }
}

/// Every allocation that the relations of a result name is the
/// representative of its own class.
pub proof fn law_results_canonical(m: Module, c: Setup, out: OutputRelations)
    requires
        out.describes(m, c),
    ensures
        forall|ctx: Seq<InstructionName>, op: Operand, r: Alloc|
            has_points_to(out.operand_points_to@, ctx, op, r) ==> is_representative(m, c, r, r),
        forall|x: Alloc, y: Alloc|
            has_edge(out.alloc_points_to@, x, y) ==> is_representative(m, c, x, x)
                && is_representative(m, c, y, y),
{
    assert forall|ctx: Seq<InstructionName>, op: Operand, r: Alloc|
        has_points_to(out.operand_points_to@, ctx, op, r) implies is_representative(
        m,
        c,
        r,
        r,
    ) by {
        assert(points_to_row(m, c, ctx, op, r));
        let a = choose|a: Alloc|
            #![trigger is_representative(m, c, a, r)]
            derivable(m, c, FactView::OperandPointsTo { ctx, operand: op, alloc: a })
                && is_representative(m, c, a, r);
        law_representative_idempotent(m, c, a, r);
    }
    assert forall|x: Alloc, y: Alloc| has_edge(out.alloc_points_to@, x, y) implies is_representative(
        m,
        c,
        x,
        x,
    ) && is_representative(m, c, y, y) by {
        assert(edge_row(m, c, x, y));
        let (a, b) = choose|a: Alloc, b: Alloc|
            #![trigger is_representative(m, c, a, x), is_representative(m, c, b, y)]
            derivable(m, c, FactView::AllocPointsTo { from: a, to: b }) && is_representative(
                m,
                c,
                a,
                x,
            ) && is_representative(m, c, b, y);
        law_representative_idempotent(m, c, a, x);
        law_representative_idempotent(m, c, b, y);
    }
}

/// Without unification every allocation is its own representative.
pub proof fn law_no_unification_identity(m: Module, c: Setup, a: Alloc)
    requires
        !c.unification,
    ensures
        is_representative(m, c, a, a),
{
    lemma_precedes_irreflexive(a);
    assert forall|b: Alloc| #[trigger] in_class(m, c, a, b) implies !b.precedes(a) by {
        law_no_unification(m, c, a, b);
    }
}

// ----------------------------------------------------------------------
// Determinism
/// A set of facts has one number of elements.
pub proof fn lemma_count_unique(m: Module, c: Setup, k: Counted, n1: nat, n2: nat)
    requires
        is_count(m, c, k, n1),
        is_count(m, c, k, n2),
    ensures
        n1 == n2,
{
    let w1 = choose|w: Seq<FactView>|
        #![trigger w.no_duplicates()]
        w.no_duplicates() && w.len() == n1 && forall|h: FactView|
            #![trigger w.contains(h)]
            w.contains(h) <==> derivable(m, c, h) && counts_as(h, k);
    let w2 = choose|w: Seq<FactView>|
        #![trigger w.no_duplicates()]
        w.no_duplicates() && w.len() == n2 && forall|h: FactView|
            #![trigger w.contains(h)]
            w.contains(h) <==> derivable(m, c, h) && counts_as(h, k);
    w1.unique_seq_to_set();
    w2.unique_seq_to_set();
    assert(w1.to_set() =~= w2.to_set());
}

/// Two results of the analysis of one module with one setup hold the same
/// rows and the same metrics.
pub proof fn law_deterministic(m: Module, c: Setup, out1: OutputRelations, out2: OutputRelations)
    requires
        out1.describes(m, c),
        out2.describes(m, c),
    ensures
        forall|x: Alloc, y: Alloc|
            has_edge(out1.alloc_points_to@, x, y) == has_edge(out2.alloc_points_to@, x, y),
        forall|ctx: Seq<InstructionName>, op: Operand, r: Alloc|
            has_points_to(out1.operand_points_to@, ctx, op, r) == has_points_to(
                out2.operand_points_to@,
                ctx,
                op,
                r,
            ),
        forall|f: FunctionId| out1.reachable@.contains(f) == out2.reachable@.contains(f),
        forall|ctx: Seq<InstructionName>, s: InstructionName, f: FunctionId|
            has_call(out1.calls@, ctx, s, f) == has_call(out2.calls@, ctx, s, f),
        forall|f: FunctionId|
            out1.needs_signature@.contains(f) == out2.needs_signature@.contains(f),
        out1.metrics == out2.metrics,
{
    assert forall|x: Alloc, y: Alloc|
        has_edge(out1.alloc_points_to@, x, y) == has_edge(out2.alloc_points_to@, x, y) by {
        assert(has_edge(out1.alloc_points_to@, x, y) <==> edge_row(m, c, x, y));
        assert(has_edge(out2.alloc_points_to@, x, y) <==> edge_row(m, c, x, y));
    }
    assert forall|ctx: Seq<InstructionName>, op: Operand, r: Alloc|
        has_points_to(out1.operand_points_to@, ctx, op, r) == has_points_to(
            out2.operand_points_to@,
            ctx,
            op,
            r,
        ) by {
        assert(has_points_to(out1.operand_points_to@, ctx, op, r) <==> points_to_row(
            m,
            c,
            ctx,
            op,
            r,
        ));
        assert(has_points_to(out2.operand_points_to@, ctx, op, r) <==> points_to_row(
            m,
            c,
            ctx,
            op,
            r,
        ));
    }
    assert forall|f: FunctionId| out1.reachable@.contains(f) == out2.reachable@.contains(f) by {
        assert(out1.reachable@.contains(f) <==> function_row(m, c, Listed::Reachable, f));
        assert(out2.reachable@.contains(f) <==> function_row(m, c, Listed::Reachable, f));
    }
    assert forall|ctx: Seq<InstructionName>, s: InstructionName, f: FunctionId|
        has_call(out1.calls@, ctx, s, f) == has_call(out2.calls@, ctx, s, f) by {
        assert(has_call(out1.calls@, ctx, s, f) <==> call_row(m, c, ctx, s, f));
        assert(has_call(out2.calls@, ctx, s, f) <==> call_row(m, c, ctx, s, f));
    }
    assert forall|f: FunctionId|
        out1.needs_signature@.contains(f) == out2.needs_signature@.contains(f) by {
        assert(out1.needs_signature@.contains(f) <==> function_row(
            m,
            c,
            Listed::NeedsSignature,
            f,
        ));
        assert(out2.needs_signature@.contains(f) <==> function_row(
            m,
            c,
            Listed::NeedsSignature,
            f,
        ));
    }
    if c.metrics {
        let x = out1.metrics->0;
        let y = out2.metrics->0;
        lemma_count_unique(m, c, Counted::Callgraph, x.callgraph_size as nat, y.callgraph_size as nat);
        lemma_count_unique(m, c, Counted::FreeNonHeap, x.free_non_heap as nat, y.free_non_heap as nat);
        lemma_count_unique(m, c, Counted::InvalidCall, x.invalid_calls as nat, y.invalid_calls as nat);
        lemma_count_unique(m, c, Counted::InvalidLoad, x.invalid_loads as nat, y.invalid_loads as nat);
        lemma_count_unique(
            m,
            c,
            Counted::InvalidMemcpyDst,
            x.invalid_memcpy_dsts as nat,
            y.invalid_memcpy_dsts as nat,
        );
        lemma_count_unique(
            m,
            c,
            Counted::InvalidMemcpySrc,
            x.invalid_memcpy_srcs as nat,
            y.invalid_memcpy_srcs as nat,
        );
        lemma_count_unique(m, c, Counted::InvalidStore, x.invalid_stores as nat, y.invalid_stores as nat);
        lemma_count_unique(m, c, Counted::PointsToTop, x.points_to_top as nat, y.points_to_top as nat);
    }
}

// ----------------------------------------------------------------------
// Constants
/// Whether every function lists its parameters by their positions.
pub open spec fn parameters_by_position(m: Module) -> bool {
    forall|f: int, k: int|
        0 <= f < m.functions.len() && 0 <= k < m.functions@[f].parameters.len() ==> (
        #[trigger] m.functions@[f].parameters@[k]) == parameter_operand(f as usize, k)
}

/// In the model of a module of text every function lists its parameters by
/// their positions: the operands by which the rules speak of them.
pub proof fn law_model_parameters(raw: crate::llvm::raw::RawModule, m: Module)
    requires
        crate::llvm::model::module_models(raw, m),
    ensures
        parameters_by_position(m),
{
    assert forall|f: int, k: int|
        0 <= f < m.functions.len() && 0 <= k < m.functions@[f].parameters.len() implies (
    #[trigger] m.functions@[f].parameters@[k]) == parameter_operand(f as usize, k) by {
        assert(crate::llvm::model::function_models(
            crate::llvm::model::names_model(raw),
            f as usize,
            raw.functions@[f],
            m.functions@[f],
        ));
    }
}

proof fn lemma_constant_operands(m: Module, c: Setup, n: nat, h: FactView)
    requires
        c.callgraph is None,
        derivable_in(m, c, n, h),
        h is OperandPointsTo,
        h->OperandPointsTo_operand is Constant,
    ensures
        constant_points_to(
            m,
            h->OperandPointsTo_operand->Constant_0,
            h->OperandPointsTo_alloc,
        ),
    decreases n,
{
    if n == 0 {
        let f = choose|f: usize|
            #![trigger m.functions@[f as int]]
            f < m.functions.len() && is_main_name(m.functions@[f as int].name@)
                && m.functions@[f as int].parameters.len() >= 2 && h
                == (FactView::OperandPointsTo {
                ctx: Seq::empty(),
                operand: parameter_operand(f, 1),
                alloc: crate::analysis::rules::extra_alloc(0),
            });
        assert(parameter_operand(f, 1) is Local);
    } else if derivable_in(m, c, (n - 1) as nat, h) {
        lemma_constant_operands(m, c, (n - 1) as nat, h);
    } else {
        let (a, b) = choose|a: FactView, b: FactView|
            derivable_in(m, c, (n - 1) as nat, a) && derivable_in(m, c, (n - 1) as nat, b)
                && #[trigger] step(m, c, a, b, h);
        if unary(m, c, a, h) {
        } else if binary(m, c, a, b, h) {
            if crate::analysis::rules::rule_argument(m, c, a, b, h) {
                let callee = a->Calls_callee;
                let k = choose|k: int|
                    0 <= k < m.functions@[callee as int].parameters.len() && k < m.args(
                        a->Calls_site,
                    ).len() && #[trigger] m.args(a->Calls_site)[k] == b->OperandPointsTo_operand
                        && h == (FactView::OperandPointsTo {
                        ctx: a->Calls_callee_ctx,
                        operand: parameter_operand(callee, k),
                        alloc: b->OperandPointsTo_alloc,
                    });
                assert(parameter_operand(callee, k) is Local);
            }
        } else if exists|s: InstructionName| m.is_site(s) && #[trigger] unary_at(m, c, s, a, h) {
            let s = choose|s: InstructionName| m.is_site(s) && #[trigger] unary_at(m, c, s, a, h);
            assert(unary_at(m, c, s, a, h));
        } else {
            let s = choose|s: InstructionName|
                m.is_site(s) && #[trigger] binary_at(m, c, s, a, b, h);
            assert(binary_at(m, c, s, a, b, h));
        }
    }
}

/// The analysis of integer values says of no operand what it points to.
proof fn lemma_values_never_point(m: Module, c: Setup, n: nat, h: FactView)
    requires
        c.callgraph is Some,
        derivable_in(m, c, n, h),
    ensures
        !(h is OperandPointsTo),
    decreases n,
{
    if n == 0 {
    } else if derivable_in(m, c, (n - 1) as nat, h) {
        lemma_values_never_point(m, c, (n - 1) as nat, h);
    } else {
        let (a, b) = choose|a: FactView, b: FactView|
            derivable_in(m, c, (n - 1) as nat, a) && derivable_in(m, c, (n - 1) as nat, b)
                && #[trigger] step(m, c, a, b, h);
        if alone(m, c, a, h) {
        } else if both(m, c, a, b, h) {
        } else if exists|s: InstructionName| m.is_site(s) && #[trigger] alone_at(m, c, s, a, h) {
            let s = choose|s: InstructionName| m.is_site(s) && #[trigger] alone_at(m, c, s, a, h);
            assert(alone_at(m, c, s, a, h));
        } else {
            let s = choose|s: InstructionName|
                m.is_site(s) && #[trigger] both_at(m, c, s, a, b, h);
            assert(both_at(m, c, s, a, b, h));
        }
    }
}

/// A constant operand denotes only what the constant points to.
pub proof fn law_constant_operands(
    m: Module,
    c: Setup,
    ctx: Seq<InstructionName>,
    k: Constant,
    a: Alloc,
)
    requires
        derivable(m, c, FactView::OperandPointsTo { ctx, operand: Operand::Constant(k), alloc: a }),
    ensures
        constant_points_to(m, k, a),
{
    let h = FactView::OperandPointsTo { ctx, operand: Operand::Constant(k), alloc: a };
    let n = choose|n: nat| derivable_in(m, c, n, h);
    if c.callgraph is Some {
        lemma_values_never_point(m, c, n, h);
    } else {
        lemma_constant_operands(m, c, n, h);
    }
}

/// A constant integer denotes nothing.
pub proof fn law_integers_point_nowhere(
    m: Module,
    c: Setup,
    ctx: Seq<InstructionName>,
    bits: u32,
    value: u64,
    a: Alloc,
)
    ensures
        !derivable(
            m,
            c,
            FactView::OperandPointsTo {
                ctx,
                operand: Operand::Constant(Constant::Int { bits, value }),
                alloc: a,
            },
        ),
{
    let k = Constant::Int { bits, value };
    if derivable(m, c, FactView::OperandPointsTo { ctx, operand: Operand::Constant(k), alloc: a }) {
        law_constant_operands(m, c, ctx, k, a);
        assert(k.pointers_spec() =~= seq![k]);
    }
}

// ----------------------------------------------------------------------
// Top
/// `Top` points to itself.
pub proof fn law_top_points_to_top(m: Module, c: Setup)
    requires
        c.callgraph is None,
    ensures
        derivable(m, c, FactView::AllocPointsTo { from: Alloc::Top, to: Alloc::Top }),
{
    let h = FactView::AllocPointsTo { from: Alloc::Top, to: Alloc::Top };
    assert(crate::analysis::rules::initial_fixed(m, c, h));
    assert(derivable_in(m, c, 0, h));
}

/// Whether the program writes something other than `Top` to `Top`: a store
/// through an address that may denote `Top` stores it, or a copy to a
/// destination that may denote `Top` copies it.
pub open spec fn writes_to_top(m: Module, c: Setup) -> bool {
    ||| exists|ctx: Seq<InstructionName>, s: InstructionName, x: Alloc|
        #![trigger derivable(m, c, FactView::OperandPointsTo { ctx, operand: m.opcode(s)->Store_0.value, alloc: x })]
        m.is_instruction(s) && m.opcode(s) is Store && x != Alloc::Top && derivable(
            m,
            c,
            FactView::OperandPointsTo {
                ctx,
                operand: m.opcode(s)->Store_0.pointer,
                alloc: Alloc::Top,
            },
        ) && derivable(
            m,
            c,
            FactView::OperandPointsTo { ctx, operand: m.opcode(s)->Store_0.value, alloc: x },
        )
    ||| exists|source: Alloc, x: Alloc|
        #![trigger derivable(m, c, FactView::MemcpyAlloc { target: Alloc::Top, source }), derivable(m, c, FactView::AllocPointsTo { from: source, to: x })]
        x != Alloc::Top && derivable(m, c, FactView::MemcpyAlloc { target: Alloc::Top, source })
            && derivable(m, c, FactView::AllocPointsTo { from: source, to: x })
}

proof fn lemma_top_not_unified(m: Module, c: Setup, n: nat, h: FactView)
    requires
        c.callgraph is None,
        derivable_in(m, c, n, h),
        h is Unified,
    ensures
        h->Unified_a != Alloc::Top,
    decreases n,
{
    if n == 0 {
    } else if derivable_in(m, c, (n - 1) as nat, h) {
        lemma_top_not_unified(m, c, (n - 1) as nat, h);
    } else {
        let (a, b) = choose|a: FactView, b: FactView|
            derivable_in(m, c, (n - 1) as nat, a) && derivable_in(m, c, (n - 1) as nat, b)
                && #[trigger] step(m, c, a, b, h);
        if unary(m, c, a, h) {
        } else if binary(m, c, a, b, h) {
            if rule_unify_transitive(m, c, a, b, h) {
                lemma_top_not_unified(m, c, (n - 1) as nat, a);
            }
        } else if exists|s: InstructionName| m.is_site(s) && #[trigger] unary_at(m, c, s, a, h) {
            let s = choose|s: InstructionName| m.is_site(s) && #[trigger] unary_at(m, c, s, a, h);
            assert(unary_at(m, c, s, a, h));
        } else {
            let s = choose|s: InstructionName|
                m.is_site(s) && #[trigger] binary_at(m, c, s, a, b, h);
            assert(binary_at(m, c, s, a, b, h));
        }
    }
}

proof fn lemma_top_points_to(m: Module, c: Setup, n: nat, x: Alloc)
    requires
        c.callgraph is None,
        !writes_to_top(m, c),
        derivable_in(m, c, n, FactView::AllocPointsTo { from: Alloc::Top, to: x }),
    ensures
        x == Alloc::Top,
    decreases n,
{
    let h = FactView::AllocPointsTo { from: Alloc::Top, to: x };
    if n == 0 {
    } else if derivable_in(m, c, (n - 1) as nat, h) {
        lemma_top_points_to(m, c, (n - 1) as nat, x);
    } else {
        let (a, b) = choose|a: FactView, b: FactView|
            derivable_in(m, c, (n - 1) as nat, a) && derivable_in(m, c, (n - 1) as nat, b)
                && #[trigger] step(m, c, a, b, h);
        assert(derivable(m, c, a));
        assert(derivable(m, c, b));
        if unary(m, c, a, h) {
        } else if binary(m, c, a, b, h) {
            if crate::analysis::rules::rule_unify_copy(m, c, a, b, h) {
                lemma_top_not_unified(m, c, (n - 1) as nat, a);
            } else {
                assert(crate::analysis::rules::rule_memcpy_copy(m, c, a, b, h));
                let source = a->MemcpyAlloc_source;
                if x != Alloc::Top {
                    assert(derivable(m, c, FactView::MemcpyAlloc { target: Alloc::Top, source }));
                    assert(derivable(m, c, FactView::AllocPointsTo { from: source, to: x }));
                    assert(writes_to_top(m, c));
                }
            }
        } else if exists|s: InstructionName| m.is_site(s) && #[trigger] unary_at(m, c, s, a, h) {
            let s = choose|s: InstructionName| m.is_site(s) && #[trigger] unary_at(m, c, s, a, h);
            assert(unary_at(m, c, s, a, h));
        } else {
            let s = choose|s: InstructionName|
                m.is_site(s) && #[trigger] binary_at(m, c, s, a, b, h);
            assert(binary_at(m, c, s, a, b, h));
            assert(crate::analysis::rules::rule_store(m, c, s, a, b, h));
            if x != Alloc::Top {
                let ctx = a->OperandPointsTo_ctx;
                assert(derivable(
                    m,
                    c,
                    FactView::OperandPointsTo {
                        ctx,
                        operand: m.opcode(s)->Store_0.value,
                        alloc: x,
                    },
                ));
                assert(writes_to_top(m, c));
            }
        }
    }
}

/// Unless the program writes something else to it, `Top` points to `Top`
/// alone.
pub proof fn law_top_points_only_to_top(m: Module, c: Setup, x: Alloc)
    requires
        c.callgraph is None,
        !writes_to_top(m, c),
    ensures
        derivable(m, c, FactView::AllocPointsTo { from: Alloc::Top, to: x }) <==> x == Alloc::Top,
{
    law_top_points_to_top(m, c);
    if derivable(m, c, FactView::AllocPointsTo { from: Alloc::Top, to: x }) {
        let n = choose|n: nat|
            derivable_in(m, c, n, FactView::AllocPointsTo { from: Alloc::Top, to: x });
        lemma_top_points_to(m, c, n, x);
    }
}

// ----------------------------------------------------------------------
// Copies
/// A copy of memory makes every storable allocation that its destination
/// may denote point to what the loadable allocations that its source may
/// denote point to.
pub proof fn law_memcpy_copies(
    m: Module,
    c: Setup,
    ctx: Seq<InstructionName>,
    dst: Operand,
    src: Operand,
    size: Option<u64>,
    from: Alloc,
    to: Alloc,
    x: Alloc,
)
    requires
        c.callgraph is None,
        derivable(m, c, FactView::Memcpy { ctx, dst, src, size }),
        derivable(m, c, FactView::OperandPointsTo { ctx, operand: src, alloc: from }),
        derivable(m, c, FactView::OperandPointsTo { ctx, operand: dst, alloc: to }),
        from.loadable_spec(),
        to.storable_spec(m),
        derivable(m, c, FactView::AllocPointsTo { from, to: x }),
    ensures
        derivable(m, c, FactView::AllocPointsTo { from: to, to: x }),
{
    let copy = FactView::Memcpy { ctx, dst, src, size };
    let reads = FactView::OperandPointsTo { ctx, operand: src, alloc: from };
    let writes = FactView::OperandPointsTo { ctx, operand: dst, alloc: to };
    let source = FactView::MemcpySource { ctx, dst, source: from };
    let both_ends = FactView::MemcpyAlloc { target: to, source: from };
    let edge = FactView::AllocPointsTo { from, to: x };
    let copied = FactView::AllocPointsTo { from: to, to: x };
    assert(crate::analysis::rules::rule_memcpy_source(m, c, copy, reads, source));
    assert(binary(m, c, copy, reads, source));
    lemma_step_derivable(m, c, copy, reads, source);
    assert(crate::analysis::rules::rule_memcpy_alloc(m, c, source, writes, both_ends));
    assert(binary(m, c, source, writes, both_ends));
    lemma_step_derivable(m, c, source, writes, both_ends);
    assert(crate::analysis::rules::rule_memcpy_copy(m, c, both_ends, edge, copied));
    assert(binary(m, c, both_ends, edge, copied));
    lemma_step_derivable(m, c, both_ends, edge, copied);
}

/// A store makes every storable allocation that its address may denote
/// point to what the stored value may denote.
pub proof fn law_store(
    m: Module,
    c: Setup,
    s: InstructionName,
    ctx: Seq<InstructionName>,
    to: Alloc,
    x: Alloc,
)
    requires
        c.callgraph is None,
        m.is_instruction(s),
        m.opcode(s) is Store,
        derivable(
            m,
            c,
            FactView::OperandPointsTo { ctx, operand: m.opcode(s)->Store_0.pointer, alloc: to },
        ),
        derivable(
            m,
            c,
            FactView::OperandPointsTo { ctx, operand: m.opcode(s)->Store_0.value, alloc: x },
        ),
        to.storable_spec(m),
    ensures
        derivable(m, c, FactView::AllocPointsTo { from: to, to: x }),
{
    let address = FactView::OperandPointsTo {
        ctx,
        operand: m.opcode(s)->Store_0.pointer,
        alloc: to,
    };
    let value = FactView::OperandPointsTo { ctx, operand: m.opcode(s)->Store_0.value, alloc: x };
    let edge = FactView::AllocPointsTo { from: to, to: x };
    assert(crate::analysis::rules::rule_store(m, c, s, address, value, edge));
    assert(binary_at(m, c, s, address, value, edge));
    assert(both_at(m, c, s, address, value, edge));
    lemma_step_derivable(m, c, address, value, edge);
}

/// The result of a load may denote what the loadable allocations that its
/// address may denote point to.
pub proof fn law_load(
    m: Module,
    c: Setup,
    s: InstructionName,
    ctx: Seq<InstructionName>,
    from: Alloc,
    x: Alloc,
)
    requires
        c.callgraph is None,
        m.is_instruction(s),
        m.opcode(s) is Load,
        derivable(
            m,
            c,
            FactView::OperandPointsTo { ctx, operand: m.opcode(s)->Load_0.pointer, alloc: from },
        ),
        from.loadable_spec(),
        derivable(m, c, FactView::AllocPointsTo { from, to: x }),
    ensures
        derivable(
            m,
            c,
            FactView::OperandPointsTo { ctx, operand: Operand::of_instruction(s), alloc: x },
        ),
{
    let address = FactView::OperandPointsTo {
        ctx,
        operand: m.opcode(s)->Load_0.pointer,
        alloc: from,
    };
    let edge = FactView::AllocPointsTo { from, to: x };
    let loaded = FactView::OperandPointsTo { ctx, operand: Operand::of_instruction(s), alloc: x };
    assert(crate::analysis::rules::rule_load(m, c, s, address, edge, loaded));
    assert(binary_at(m, c, s, address, edge, loaded));
    assert(both_at(m, c, s, address, edge, loaded));
    lemma_step_derivable(m, c, address, edge, loaded);
}

// ----------------------------------------------------------------------
// Results
/// The callee of every call that a result lists is listed as reachable.
pub proof fn law_listed_calls_reach(
    m: Module,
    c: Setup,
    out: OutputRelations,
    ctx: Seq<InstructionName>,
    s: InstructionName,
    f: FunctionId,
)
    requires
        out.describes(m, c),
        has_call(out.calls@, ctx, s, f),
    ensures
        out.reachable@.contains(f),
{
    assert(call_row(m, c, ctx, s, f));
    let cc = choose|cc: Seq<InstructionName>| #[trigger]
        derivable(m, c, (FactView::Calls { ctx, site: s, callee: f, callee_ctx: cc }));
    law_calls_reach(m, c, ctx, s, f, cc);
    let h = FactView::Reachable { ctx: cc, function: f };
    assert(crate::analysis::output::listed_function(h, Listed::Reachable) == Some(f));
    assert(function_row(m, c, Listed::Reachable, f));
}

/// Where the strict assertions hold and no function needs a signature,
/// every instruction of pointer type in a reachable function, casts and
/// address computations apart, denotes something.
pub proof fn law_strict_pointees(
    m: Module,
    c: Setup,
    out: OutputRelations,
    ctx: Seq<InstructionName>,
    s: InstructionName,
)
    requires
        crate::analysis::pointer::is_outcome(m, c, true, true, Ok(out)),
        !crate::analysis::checks::any_needs_signature(m, c),
        derivable(m, c, FactView::Reachable { ctx, function: s.parent_function }),
        m.is_instruction(s),
        m.instruction_type(s).is_pointer(),
        !crate::analysis::checks::is_cast(m.opcode(s)),
    ensures
        crate::analysis::checks::has_pointee(m, c, ctx, Operand::of_instruction(s)),
{
    assert(!crate::analysis::checks::fails(
        m,
        c,
        true,
        crate::analysis::checks::FailureKind::InstructionWithoutPointee,
        ctx,
        s,
    ));
}

} // verus!
