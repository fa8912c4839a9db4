//! The rules with two premises that look at no site.

use crate::analysis::emit::{lemma_added, result_of};
use crate::analysis::facts::{clone_context, holds, same_context, Fact, FactView};
use crate::analysis::lookup::{effects_of, parameter_of, returns_operand_of};
use crate::analysis::rules::{
    binary, parameter_operand, rule_argument, rule_free_non_heap, rule_invalid_memcpy_dst, rule_invalid_memcpy_src,
    rule_memcpy_alloc, rule_memcpy_copy, rule_memcpy_source, rule_return, rule_return_aliases,
    rule_unify, rule_unify_copy, rule_unify_transitive, Setup,
};

use crate::llvm::operand::Operand;
use crate::llvm::Module;
use crate::signatures::Signature;
use crate::text::same_text;
use vstd::prelude::*;

verus! {

fn apply_argument(m: &Module, c: &Setup, a: &Fact, b: &Fact, out: &mut Vec<Fact>)
    ensures
        forall|h: FactView|
            #![trigger holds(final(out)@, h)]
            holds(final(out)@, h) <==> holds(old(out)@, h) || rule_argument(*m, *c, a@, b@, h),
{
    if let Fact::Calls { ctx, site, callee, callee_ctx } = a {
        if let Fact::OperandPointsTo { ctx: ctx2, operand, alloc } = b {
            if same_context(ctx2, ctx) && *callee < m.functions.len() {
                if let Some((_, args)) = m.call_at(*site) {
                    let params = &m.functions[*callee].parameters;
                    let mut k: usize = 0;
                    while k < params.len() && k < args.len()
                        invariant
                            k <= params.len(),
                            k <= args.len(),
                            *callee < m.functions.len(),
                            *params == m.functions@[*callee as int].parameters,
                            args@ == m.args(*site),
                            forall|h: FactView|
                                #![trigger holds(out@, h)]
                                holds(out@, h) <==> holds(old(out)@, h) || exists|j: int|
                                    0 <= j < k && #[trigger] args@[j] == *operand && h
                                        == (FactView::OperandPointsTo {
                                        ctx: callee_ctx@,
                                        operand: parameter_operand(*callee, j),
                                        alloc: *alloc,
                                    }),
                        decreases params.len() - k,
                    {
                        let ghost before = out@;
                        if args[k].equals(operand) {
                            let f = Fact::OperandPointsTo {
                                ctx: clone_context(callee_ctx),
                                operand: parameter_of(*callee, k),
                                alloc: *alloc,
                            };
                            out.push(f);
                            proof {
                                lemma_added(before, out@, f);
                                assert forall|h: FactView| #![trigger holds(out@, h)]
                                    holds(out@, h) <==> holds(old(out)@, h) || exists|j: int|
                                        0 <= j < k + 1 && #[trigger] args@[j] == *operand && h
                                            == (FactView::OperandPointsTo {
                                            ctx: callee_ctx@,
                                            operand: parameter_operand(*callee, j),
                                            alloc: *alloc,
                                        }) by {
                                    assert(holds(before, h) <==> holds(old(out)@, h) || exists|
                                        j: int,
                                    |
                                        0 <= j < k && #[trigger] args@[j] == *operand && h
                                            == (FactView::OperandPointsTo {
                                            ctx: callee_ctx@,
                                            operand: parameter_operand(*callee, j),
                                            alloc: *alloc,
                                        }));
                                    if h == f@ {
                                        assert(args@[k as int] == *operand);
                                    }
                                }
                            }
                        } else {
                            proof {
                                assert forall|h: FactView| #![trigger holds(out@, h)]
                                    holds(out@, h) <==> holds(old(out)@, h) || exists|j: int|
                                        0 <= j < k + 1 && #[trigger] args@[j] == *operand && h
                                            == (FactView::OperandPointsTo {
                                            ctx: callee_ctx@,
                                            operand: parameter_operand(*callee, j),
                                            alloc: *alloc,
                                        }) by {
                                    assert(holds(before, h) <==> holds(old(out)@, h) || exists|
                                        j: int,
                                    |
                                        0 <= j < k && #[trigger] args@[j] == *operand && h
                                            == (FactView::OperandPointsTo {
                                            ctx: callee_ctx@,
                                            operand: parameter_operand(*callee, j),
                                            alloc: *alloc,
                                        }));
                                }
                            }
                        }
                        k += 1;
                    }
                    proof {
                        assert forall|h: FactView| #![trigger holds(out@, h)]
                            holds(out@, h) <==> holds(old(out)@, h) || rule_argument(
                                *m,
                                *c,
                                a@,
                                b@,
                                h,
                            ) by {
                            if rule_argument(*m, *c, a@, b@, h) {
                                let j = choose|j: int|
                                    0 <= j < params@.len() && j < args@.len()
                                        && #[trigger] args@[j] == *operand && h
                                        == (FactView::OperandPointsTo {
                                        ctx: callee_ctx@,
                                        operand: parameter_operand(*callee, j),
                                        alloc: *alloc,
                                    });
                                assert(0 <= j < k && args@[j] == *operand);
                            }
                            if exists|j: int|
                                0 <= j < k && #[trigger] args@[j] == *operand && h
                                    == (FactView::OperandPointsTo {
                                    ctx: callee_ctx@,
                                    operand: parameter_operand(*callee, j),
                                    alloc: *alloc,
                                }) {
                                let j = choose|j: int|
                                    0 <= j < k && #[trigger] args@[j] == *operand && h
                                        == (FactView::OperandPointsTo {
                                        ctx: callee_ctx@,
                                        operand: parameter_operand(*callee, j),
                                        alloc: *alloc,
                                    });
                                assert(0 <= j < params@.len() && j < args@.len() && args@[j]
                                    == *operand);
                            }
                        }
                    }
                }
            }
        }
    }
}

fn apply_return(m: &Module, c: &Setup, a: &Fact, b: &Fact, out: &mut Vec<Fact>)
    ensures
        forall|h: FactView|
            #![trigger holds(final(out)@, h)]
            holds(final(out)@, h) <==> holds(old(out)@, h) || rule_return(*m, *c, a@, b@, h),
{
    if let Fact::Calls { ctx, site, callee, callee_ctx } = a {
        if let Fact::OperandPointsTo { ctx: ctx2, operand, alloc } = b {
            if same_context(ctx2, callee_ctx) && returns_operand_of(m, *callee, operand) {
                let f = Fact::OperandPointsTo {
                    ctx: clone_context(ctx),
                    operand: result_of(*site),
                    alloc: *alloc,
                };
                out.push(f);
                proof {
                    lemma_added(old(out)@, out@, f);
                }
            }
        }
    }
}

/// Whether an effect says that the call returns the argument `operand`.
pub open spec fn aliases_argument(es: Seq<Signature>, args: Seq<Operand>, operand: Operand) -> bool {
    exists|j: int|
        0 <= j < es.len() && (#[trigger] es[j]) is ReturnAliasesArg
            && es[j]->ReturnAliasesArg_arg < args.len() && args[es[j]->ReturnAliasesArg_arg as int]
            == operand
}

fn aliases_argument_of(es: &Vec<Signature>, args: &Vec<Operand>, operand: &Operand) -> (r: bool)
    ensures
        r == aliases_argument(es@, args@, *operand),
{
    let mut j: usize = 0;
    while j < es.len()
        invariant
            j <= es.len(),
            forall|i: int|
                0 <= i < j ==> !((#[trigger] es@[i]) is ReturnAliasesArg
                    && es@[i]->ReturnAliasesArg_arg < args@.len()
                    && args@[es@[i]->ReturnAliasesArg_arg as int] == *operand),
        decreases es.len() - j,
    {
        if let Signature::ReturnAliasesArg { arg } = &es[j] {
            if *arg < args.len() && args[*arg].equals(operand) {
                return true;
            }
        }
        j += 1;
    }
    false
}

fn apply_return_aliases(m: &Module, c: &Setup, a: &Fact, b: &Fact, out: &mut Vec<Fact>)
    ensures
        forall|h: FactView|
            #![trigger holds(final(out)@, h)]
            holds(final(out)@, h) <==> holds(old(out)@, h) || rule_return_aliases(
                *m,
                *c,
                a@,
                b@,
                h,
            ),
{
    if let Fact::Calls { ctx, site, callee, callee_ctx } = a {
        if let Fact::OperandPointsTo { ctx: ctx2, operand, alloc } = b {
            if same_context(ctx2, ctx) {
                if let Some((_, args)) = m.call_at(*site) {
                    if let Some(es) = effects_of(m, c, *callee) {
                        if aliases_argument_of(es, args, operand) {
                            let f = Fact::OperandPointsTo {
                                ctx: clone_context(ctx),
                                operand: result_of(*site),
                                alloc: *alloc,
                            };
                            out.push(f);
                            proof {
                                lemma_added(old(out)@, out@, f);
                            }
                        }
                    }
                }
            }
        }
    }
}

fn apply_memcpy_source(m: &Module, c: &Setup, a: &Fact, b: &Fact, out: &mut Vec<Fact>)
    ensures
        forall|h: FactView|
            #![trigger holds(final(out)@, h)]
            holds(final(out)@, h) <==> holds(old(out)@, h) || rule_memcpy_source(
                *m,
                *c,
                a@,
                b@,
                h,
            ),
{
    if let Fact::Memcpy { ctx, dst, src, size } = a {
        if let Fact::OperandPointsTo { ctx: ctx2, operand, alloc } = b {
            if same_context(ctx2, ctx) && operand.equals(src) && alloc.loadable() {
                let f = Fact::MemcpySource {
                    ctx: clone_context(ctx),
                    dst: dst.clone(),
                    source: *alloc,
                };
                out.push(f);
                proof {
                    lemma_added(old(out)@, out@, f);
                }
            }
        }
    }
}

fn apply_memcpy_alloc(m: &Module, c: &Setup, a: &Fact, b: &Fact, out: &mut Vec<Fact>)
    ensures
        forall|h: FactView|
            #![trigger holds(final(out)@, h)]
            holds(final(out)@, h) <==> holds(old(out)@, h) || rule_memcpy_alloc(
                *m,
                *c,
                a@,
                b@,
                h,
            ),
{
    if let Fact::MemcpySource { ctx, dst, source } = a {
        if let Fact::OperandPointsTo { ctx: ctx2, operand, alloc } = b {
            if same_context(ctx2, ctx) && operand.equals(dst) && alloc.storable(m) {
                let f = Fact::MemcpyAlloc { target: *alloc, source: *source };
                out.push(f);
                proof {
                    lemma_added(old(out)@, out@, f);
                }
            }
        }
    }
}

fn apply_memcpy_copy(m: &Module, c: &Setup, a: &Fact, b: &Fact, out: &mut Vec<Fact>)
    ensures
        forall|h: FactView|
            #![trigger holds(final(out)@, h)]
            holds(final(out)@, h) <==> holds(old(out)@, h) || rule_memcpy_copy(*m, *c, a@, b@, h),
{
    if let Fact::MemcpyAlloc { target, source } = a {
        if let Fact::AllocPointsTo { from, to } = b {
            if *from == *source {
                let f = Fact::AllocPointsTo { from: *target, to: *to };
                out.push(f);
                proof {
                    lemma_added(old(out)@, out@, f);
                }
            }
        }
    }
}

fn apply_unify(m: &Module, c: &Setup, a: &Fact, b: &Fact, out: &mut Vec<Fact>)
    ensures
        forall|h: FactView|
            #![trigger holds(final(out)@, h)]
            holds(final(out)@, h) <==> holds(old(out)@, h) || rule_unify(*m, *c, a@, b@, h),
{
    if let Fact::OperandPointsTo { ctx, operand, alloc } = a {
        if let Fact::OperandPointsTo { ctx: ctx2, operand: operand2, alloc: alloc2 } = b {
            if c.unification && alloc.mergeable(alloc2, m) && operand2.equals(operand)
                && same_context(ctx2, ctx) {
                let f = Fact::Unified { a: *alloc, b: *alloc2 };
                out.push(f);
                proof {
                    lemma_added(old(out)@, out@, f);
                }
            }
        }
    }
}

fn apply_unify_transitive(m: &Module, c: &Setup, a: &Fact, b: &Fact, out: &mut Vec<Fact>)
    ensures
        forall|h: FactView|
            #![trigger holds(final(out)@, h)]
            holds(final(out)@, h) <==> holds(old(out)@, h) || rule_unify_transitive(
                *m,
                *c,
                a@,
                b@,
                h,
            ),
{
    if let Fact::Unified { a: x, b: y } = a {
        if let Fact::Unified { a: y2, b: z } = b {
            if *y2 == *y && *x != *z {
                let f = Fact::Unified { a: *x, b: *z };
                out.push(f);
                proof {
                    lemma_added(old(out)@, out@, f);
                }
            }
        }
    }
}

fn apply_unify_copy(m: &Module, c: &Setup, a: &Fact, b: &Fact, out: &mut Vec<Fact>)
    ensures
        forall|h: FactView|
            #![trigger holds(final(out)@, h)]
            holds(final(out)@, h) <==> holds(old(out)@, h) || rule_unify_copy(*m, *c, a@, b@, h),
{
    if let Fact::Unified { a: x, b: y } = a {
        if let Fact::AllocPointsTo { from, to } = b {
            if *from == *y {
                let f = Fact::AllocPointsTo { from: *x, to: *to };
                out.push(f);
                proof {
                    lemma_added(old(out)@, out@, f);
                }
            }
        }
    }
}

fn apply_free_non_heap(m: &Module, c: &Setup, a: &Fact, b: &Fact, out: &mut Vec<Fact>)
    ensures
        forall|h: FactView|
            #![trigger holds(final(out)@, h)]
            holds(final(out)@, h) <==> holds(old(out)@, h) || rule_free_non_heap(
                *m,
                *c,
                a@,
                b@,
                h,
            ),
{
    if let Fact::Calls { ctx, site, callee, callee_ctx } = a {
        if let Fact::OperandPointsTo { ctx: ctx2, operand, alloc } = b {
            if same_context(ctx2, ctx) && m.has_function(*callee) && !alloc.freeable() {
                if same_text(m.name_of(*callee), "free") {
                    if let Some((_, args)) = m.call_at(*site) {
                        if args.len() >= 1 && args[0].equals(operand) {
                            let f = Fact::FreeNonHeap { alloc: *alloc };
                            out.push(f);
                            proof {
                                lemma_added(old(out)@, out@, f);
                            }
                        }
                    }
                }
            }
        }
    }
}

fn apply_invalid_memcpy_dst(m: &Module, c: &Setup, a: &Fact, b: &Fact, out: &mut Vec<Fact>)
    ensures
        forall|h: FactView|
            #![trigger holds(final(out)@, h)]
            holds(final(out)@, h) <==> holds(old(out)@, h) || rule_invalid_memcpy_dst(
                *m,
                *c,
                a@,
                b@,
                h,
            ),
{
    if let Fact::Memcpy { ctx, dst, src, size } = a {
        if let Fact::OperandPointsTo { ctx: ctx2, operand, alloc } = b {
            if c.metrics && same_context(ctx2, ctx) && operand.equals(dst) && !alloc.storable(m) {
                let f = Fact::InvalidMemcpyDst { operand: operand.clone(), alloc: *alloc };
                out.push(f);
                proof {
                    lemma_added(old(out)@, out@, f);
                }
            }
        }
    }
}

fn apply_invalid_memcpy_src(m: &Module, c: &Setup, a: &Fact, b: &Fact, out: &mut Vec<Fact>)
    ensures
        forall|h: FactView|
            #![trigger holds(final(out)@, h)]
            holds(final(out)@, h) <==> holds(old(out)@, h) || rule_invalid_memcpy_src(
                *m,
                *c,
                a@,
                b@,
                h,
            ),
{
    if let Fact::Memcpy { ctx, dst, src, size } = a {
        if let Fact::OperandPointsTo { ctx: ctx2, operand, alloc } = b {
            if c.metrics && same_context(ctx2, ctx) && operand.equals(src) && !alloc.loadable() {
                let f = Fact::InvalidMemcpySrc { operand: operand.clone(), alloc: *alloc };
                out.push(f);
                proof {
                    lemma_added(old(out)@, out@, f);
                }
            }
        }
    }
}

/// Adds what follows from `a` and `b` without a look at a site.
pub fn derive_binary(m: &Module, c: &Setup, a: &Fact, b: &Fact, out: &mut Vec<Fact>)
    ensures
        forall|h: FactView|
            #![trigger holds(final(out)@, h)]
            holds(final(out)@, h) <==> holds(old(out)@, h) || binary(*m, *c, a@, b@, h),
{
    apply_argument(m, c, a, b, out);
    apply_return(m, c, a, b, out);
    apply_return_aliases(m, c, a, b, out);
    apply_memcpy_source(m, c, a, b, out);
    apply_memcpy_alloc(m, c, a, b, out);
    apply_memcpy_copy(m, c, a, b, out);
    apply_unify(m, c, a, b, out);
    apply_unify_transitive(m, c, a, b, out);
    apply_unify_copy(m, c, a, b, out);
    apply_free_non_heap(m, c, a, b, out);
    apply_invalid_memcpy_dst(m, c, a, b, out);
    apply_invalid_memcpy_src(m, c, a, b, out);
}

} // verus!
