//! The rules with one premise that look at no site.

use crate::allocation::{Alloc, HeapAlloc};
use crate::analysis::emit::{lemma_added, result_of};
use crate::analysis::facts::{clone_context, holds, Context, Fact, FactView};
use crate::analysis::lookup::{
    effects_of, heap_size_position, is_memcpy, lacks_signature_of, named_allocs,
    signature_alloc_of,
};
use crate::analysis::rules::{
    effect_fact, named_alloc, rule_callgraph, rule_external, rule_heap, rule_memcpy,
    rule_needs_signature, rule_points_to_top, rule_reachable, rule_signature, unary, Setup,
};
use crate::llvm::name::InstructionName;
use crate::llvm::operand::Operand;
use crate::llvm::Module;
use crate::signatures::Signature;
use vstd::prelude::*;

verus! {

pub fn apply_reachable(m: &Module, c: &Setup, a: &Fact, out: &mut Vec<Fact>)
    ensures
        forall|h: FactView|
            #![trigger holds(final(out)@, h)]
            holds(final(out)@, h) <==> holds(old(out)@, h) || rule_reachable(*m, *c, a@, h),
{
    if let Fact::Calls { ctx, site, callee, callee_ctx } = a {
        let f = Fact::Reachable { ctx: clone_context(callee_ctx), function: *callee };
        out.push(f);
        proof {
            lemma_added(old(out)@, out@, f);
        }
    }
}

fn apply_heap(m: &Module, c: &Setup, a: &Fact, out: &mut Vec<Fact>)
    ensures
        forall|h: FactView|
            #![trigger holds(final(out)@, h)]
            holds(final(out)@, h) <==> holds(old(out)@, h) || rule_heap(*m, *c, a@, h),
{
    if let Fact::Calls { ctx, site, callee, callee_ctx } = a {
        if m.has_function(*callee) {
            if let Some((_, args)) = m.call_at(*site) {
                if let Some(_) = heap_size_position(m.name_of(*callee)) {
                    let f = Fact::OperandPointsTo {
                        ctx: clone_context(ctx),
                        operand: result_of(*site),
                        alloc: Alloc::Heap(HeapAlloc { instruction: *site }),
                    };
                    out.push(f);
                    proof {
                        lemma_added(old(out)@, out@, f);
                    }
                }
            }
        }
    }
}

fn apply_external(m: &Module, c: &Setup, a: &Fact, out: &mut Vec<Fact>)
    ensures
        forall|h: FactView|
            #![trigger holds(final(out)@, h)]
            holds(final(out)@, h) <==> holds(old(out)@, h) || rule_external(*m, *c, a@, h),
{
    if let Fact::Calls { ctx, site, callee, callee_ctx } = a {
        if lacks_signature_of(m, c, *callee) {
            if let crate::llvm::Type::Pointer { .. } = m.decls[*callee
                - m.functions.len()].return_type {
                let f = Fact::OperandPointsTo {
                    ctx: clone_context(ctx),
                    operand: result_of(*site),
                    alloc: Alloc::Top,
                };
                out.push(f);
                proof {
                    lemma_added(old(out)@, out@, f);
                }
            }
        }
    }
}

fn apply_memcpy(m: &Module, c: &Setup, a: &Fact, out: &mut Vec<Fact>)
    ensures
        forall|h: FactView|
            #![trigger holds(final(out)@, h)]
            holds(final(out)@, h) <==> holds(old(out)@, h) || rule_memcpy(*m, *c, a@, h),
{
    if let Fact::Calls { ctx, site, callee, callee_ctx } = a {
        if m.has_function(*callee) {
            if let Some((_, args)) = m.call_at(*site) {
                if is_memcpy(m.name_of(*callee)) && args.len() >= 2 {
                    let size = if args.len() >= 3 {
                        args[2].constant_int()
                    } else {
                        None
                    };
                    let f = Fact::Memcpy {
                        ctx: clone_context(ctx),
                        dst: args[0].clone(),
                        src: args[1].clone(),
                        size,
                    };
                    out.push(f);
                    proof {
                        lemma_added(old(out)@, out@, f);
                    }
                }
            }
        }
    }
}

/// Adds what one effect of a signature says of a call at `site` in `ctx`.
fn apply_effect(
    m: &Module,
    c: &Setup,
    ctx: &Context,
    site: InstructionName,
    e: &Signature,
    out: &mut Vec<Fact>,
)
    ensures
        forall|h: FactView|
            #![trigger holds(final(out)@, h)]
            holds(final(out)@, h) <==> holds(old(out)@, h) || effect_fact(
                *m,
                *c,
                ctx@,
                site,
                *e,
                h,
            ),
{
    match e {
        Signature::ReturnAlloc { kind } => {
            let f = Fact::OperandPointsTo {
                ctx: clone_context(ctx),
                operand: result_of(site),
                alloc: signature_alloc_of(*kind, site),
            };
            out.push(f);
            proof {
                lemma_added(old(out)@, out@, f);
            }
        },
        Signature::ReturnPointsToGlobal { global } => {
            let allocs = named_allocs(m, c, global.as_str());
            let mut i: usize = 0;
            while i < allocs.len()
                invariant
                    i <= allocs.len(),
                    *e == (Signature::ReturnPointsToGlobal { global: *global }),
                    forall|x: Alloc|
                        #![trigger allocs@.contains(x)]
                        allocs@.contains(x) <==> named_alloc(*m, *c, global@, x),
                    forall|h: FactView|
                        #![trigger holds(out@, h)]
                        holds(out@, h) <==> holds(old(out)@, h) || exists|j: int|
                            0 <= j < i && h == (FactView::OperandPointsTo {
                                ctx: ctx@,
                                operand: Operand::of_instruction(site),
                                alloc: #[trigger] allocs@[j],
                            }),
                decreases allocs.len() - i,
            {
                let ghost before = out@;
                let f = Fact::OperandPointsTo {
                    ctx: clone_context(ctx),
                    operand: result_of(site),
                    alloc: allocs[i],
                };
                out.push(f);
                proof {
                    lemma_added(before, out@, f);
                    assert forall|h: FactView| #![trigger holds(out@, h)]
                        holds(out@, h) <==> holds(old(out)@, h) || exists|j: int|
                            0 <= j < i + 1 && h == (FactView::OperandPointsTo {
                                ctx: ctx@,
                                operand: Operand::of_instruction(site),
                                alloc: #[trigger] allocs@[j],
                            }) by {
                        assert(holds(before, h) <==> holds(old(out)@, h) || exists|j: int|
                            0 <= j < i && h == (FactView::OperandPointsTo {
                                ctx: ctx@,
                                operand: Operand::of_instruction(site),
                                alloc: #[trigger] allocs@[j],
                            }));
                        if h == f@ {
                            assert(h == (FactView::OperandPointsTo {
                                ctx: ctx@,
                                operand: Operand::of_instruction(site),
                                alloc: allocs@[i as int],
                            }));
                        }
                    }
                }
                i += 1;
            }
            proof {
                assert forall|h: FactView| #![trigger holds(out@, h)]
                    holds(out@, h) <==> holds(old(out)@, h) || effect_fact(
                        *m,
                        *c,
                        ctx@,
                        site,
                        *e,
                        h,
                    ) by {
                    if effect_fact(*m, *c, ctx@, site, *e, h) {
                        let x = choose|x: Alloc|
                            #![trigger named_alloc(*m, *c, global@, x)]
                            named_alloc(*m, *c, global@, x) && h == (FactView::OperandPointsTo {
                                ctx: ctx@,
                                operand: Operand::of_instruction(site),
                                alloc: x,
                            });
                        assert(allocs@.contains(x));
                        let j = choose|j: int| 0 <= j < allocs@.len() && allocs@[j] == x;
                        assert(h == (FactView::OperandPointsTo {
                            ctx: ctx@,
                            operand: Operand::of_instruction(site),
                            alloc: allocs@[j],
                        }));
                    }
                    if exists|j: int|
                        0 <= j < i && h == (FactView::OperandPointsTo {
                            ctx: ctx@,
                            operand: Operand::of_instruction(site),
                            alloc: #[trigger] allocs@[j],
                        }) {
                        let j = choose|j: int|
                            0 <= j < i && h == (FactView::OperandPointsTo {
                                ctx: ctx@,
                                operand: Operand::of_instruction(site),
                                alloc: #[trigger] allocs@[j],
                            });
                        assert(allocs@.contains(allocs@[j]));
                        assert(named_alloc(*m, *c, global@, allocs@[j]));
                    }
                }
            }
        },
        Signature::ArgMemcpyArg { dst, src } => {
            if let Some((_, args)) = m.call_at(site) {
                if *dst != *src && *dst < args.len() && *src < args.len() {
                    let f = Fact::Memcpy {
                        ctx: clone_context(ctx),
                        dst: args[*dst].clone(),
                        src: args[*src].clone(),
                        size: None,
                    };
                    out.push(f);
                    proof {
                        lemma_added(old(out)@, out@, f);
                    }
                }
            }
        },
        _ => {},
    }
}

fn apply_signature(m: &Module, c: &Setup, a: &Fact, out: &mut Vec<Fact>)
    ensures
        forall|h: FactView|
            #![trigger holds(final(out)@, h)]
            holds(final(out)@, h) <==> holds(old(out)@, h) || rule_signature(*m, *c, a@, h),
{
    if let Fact::Calls { ctx, site, callee, callee_ctx } = a {
        if let Some(es) = effects_of(m, c, *callee) {
            let mut j: usize = 0;
            while j < es.len()
                invariant
                    j <= es.len(),
                    forall|h: FactView|
                        #![trigger holds(out@, h)]
                        holds(out@, h) <==> holds(old(out)@, h) || exists|k: int|
                            0 <= k < j && effect_fact(*m, *c, ctx@, *site, #[trigger] es@[k], h),
                decreases es.len() - j,
            {
                let ghost before = out@;
                apply_effect(m, c, ctx, *site, &es[j], out);
                proof {
                    assert forall|h: FactView| #![trigger holds(out@, h)]
                        holds(out@, h) <==> holds(old(out)@, h) || exists|k: int|
                            0 <= k < j + 1 && effect_fact(
                                *m,
                                *c,
                                ctx@,
                                *site,
                                #[trigger] es@[k],
                                h,
                            ) by {
                        assert(holds(before, h) <==> holds(old(out)@, h) || exists|k: int|
                            0 <= k < j && effect_fact(*m, *c, ctx@, *site, #[trigger] es@[k], h));
                        if effect_fact(*m, *c, ctx@, *site, es@[j as int], h) {
                        }
                    }
                }
                j += 1;
            }
        }
    }
}

fn apply_needs_signature(m: &Module, c: &Setup, a: &Fact, out: &mut Vec<Fact>)
    ensures
        forall|h: FactView|
            #![trigger holds(final(out)@, h)]
            holds(final(out)@, h) <==> holds(old(out)@, h) || rule_needs_signature(*m, *c, a@, h),
{
    if let Fact::Calls { ctx, site, callee, callee_ctx } = a {
        if lacks_signature_of(m, c, *callee) {
            let f = Fact::NeedsSignature { function: *callee };
            out.push(f);
            proof {
                lemma_added(old(out)@, out@, f);
            }
        }
    }
}

fn apply_callgraph(m: &Module, c: &Setup, a: &Fact, out: &mut Vec<Fact>)
    ensures
        forall|h: FactView|
            #![trigger holds(final(out)@, h)]
            holds(final(out)@, h) <==> holds(old(out)@, h) || rule_callgraph(*m, *c, a@, h),
{
    if let Fact::Calls { ctx, site, callee, callee_ctx } = a {
        let f = Fact::Callgraph { site: *site, callee: *callee };
        out.push(f);
        proof {
            lemma_added(old(out)@, out@, f);
        }
    }
}

fn apply_points_to_top(m: &Module, c: &Setup, a: &Fact, out: &mut Vec<Fact>)
    ensures
        forall|h: FactView|
            #![trigger holds(final(out)@, h)]
            holds(final(out)@, h) <==> holds(old(out)@, h) || rule_points_to_top(*m, *c, a@, h),
{
    if let Fact::OperandPointsTo { ctx, operand, alloc } = a {
        if let Alloc::Top = alloc {
            let f = Fact::PointsToTop { operand: operand.clone() };
            out.push(f);
            proof {
                lemma_added(old(out)@, out@, f);
            }
        }
    }
}

/// Adds what follows from `a` without a look at a site.
pub fn derive_unary(m: &Module, c: &Setup, a: &Fact, out: &mut Vec<Fact>)
    ensures
        forall|h: FactView|
            #![trigger holds(final(out)@, h)]
            holds(final(out)@, h) <==> holds(old(out)@, h) || unary(*m, *c, a@, h),
{
    apply_reachable(m, c, a, out);
    apply_heap(m, c, a, out);
    apply_external(m, c, a, out);
    apply_memcpy(m, c, a, out);
    apply_signature(m, c, a, out);
    apply_needs_signature(m, c, a, out);
    apply_callgraph(m, c, a, out);
    apply_points_to_top(m, c, a, out);
}

} // verus!
