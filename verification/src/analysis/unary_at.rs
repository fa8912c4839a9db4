//! The rules with one premise that look at a site.

use crate::allocation::{Alloc, StackAlloc};
use crate::analysis::callgraph::indirect_call_targets;
use crate::analysis::emit::{emit_calls, emit_points_to, lemma_added, result_of};
use crate::analysis::facts::{clone_context, holds, Fact, FactView};
use crate::analysis::lookup::{constant_allocs, passes_of};
use crate::analysis::rules::{
    arity_fits, constant_points_to, rule_asm, rule_constant, rule_invalid_call,
    rule_invalid_load, rule_invalid_store, rule_pass, rule_stack, unary_at, Setup,
};
use crate::klimited::pushed_seq;
use crate::llvm::instruction::Opcode;
use crate::llvm::name::{FunctionId, InstructionName};
use crate::llvm::operand::{Callee, Operand};
use crate::llvm::Module;
use vstd::prelude::*;

verus! {

fn apply_stack(m: &Module, c: &Setup, s: InstructionName, a: &Fact, out: &mut Vec<Fact>)
    ensures
        forall|h: FactView|
            #![trigger holds(final(out)@, h)]
            holds(final(out)@, h) <==> holds(old(out)@, h) || rule_stack(*m, *c, s, a@, h),
{
    if let Fact::Reachable { ctx, function } = a {
        if s.parent_function == *function && m.has_instruction(s) {
            if let Opcode::Alloca(_) = m.opcode_of(s) {
                let f = Fact::OperandPointsTo {
                    ctx: clone_context(ctx),
                    operand: result_of(s),
                    alloc: Alloc::Stack(StackAlloc { name: s }),
                };
                out.push(f);
                proof {
                    lemma_added(old(out)@, out@, f);
                }
            }
        }
    }
}

fn apply_constant(m: &Module, c: &Setup, s: InstructionName, a: &Fact, out: &mut Vec<Fact>)
    ensures
        forall|h: FactView|
            #![trigger holds(final(out)@, h)]
            holds(final(out)@, h) <==> holds(old(out)@, h) || rule_constant(*m, *c, s, a@, h),
{
    if let Fact::Reachable { ctx, function } = a {
        if s.parent_function == *function {
            let ops = m.operands_at(s);
            let mut i: usize = 0;
            while i < ops.len()
                invariant
                    i <= ops.len(),
                    ops@ == m.operands(s),
                    forall|h: FactView|
                        #![trigger holds(out@, h)]
                        holds(out@, h) <==> holds(old(out)@, h) || exists|j: int, x: Alloc|
                            #![trigger ops@[j], constant_points_to(*m, ops@[j]->Constant_0, x)]
                            0 <= j < i && ops@[j] is Constant && constant_points_to(
                                *m,
                                ops@[j]->Constant_0,
                                x,
                            ) && h == (FactView::OperandPointsTo {
                                ctx: ctx@,
                                operand: ops@[j],
                                alloc: x,
                            }),
                decreases ops.len() - i,
            {
                let ghost before = out@;
                if let Operand::Constant(k) = &ops[i] {
                    let allocs = constant_allocs(m, k);
                    emit_points_to(ctx, &ops[i], &allocs, out);
                    proof {
                        assert forall|h: FactView| #![trigger holds(out@, h)]
                            holds(out@, h) <==> holds(old(out)@, h) || exists|j: int, x: Alloc|
                                #![trigger ops@[j], constant_points_to(*m, ops@[j]->Constant_0, x)]
                                0 <= j < i + 1 && ops@[j] is Constant && constant_points_to(
                                    *m,
                                    ops@[j]->Constant_0,
                                    x,
                                ) && h == (FactView::OperandPointsTo {
                                    ctx: ctx@,
                                    operand: ops@[j],
                                    alloc: x,
                                }) by {
                            lemma_constant_step(*m, ctx@, ops@, i as int, allocs@, h);
                            assert(holds(before, h) <==> holds(old(out)@, h) || exists|
                                j: int,
                                x: Alloc,
                            |
                                #![trigger ops@[j], constant_points_to(*m, ops@[j]->Constant_0, x)]
                                0 <= j < i && ops@[j] is Constant && constant_points_to(
                                    *m,
                                    ops@[j]->Constant_0,
                                    x,
                                ) && h == (FactView::OperandPointsTo {
                                    ctx: ctx@,
                                    operand: ops@[j],
                                    alloc: x,
                                }));
                        }
                    }
                } else {
                    proof {
                        assert forall|h: FactView| #![trigger holds(out@, h)]
                            holds(out@, h) <==> holds(old(out)@, h) || exists|j: int, x: Alloc|
                                #![trigger ops@[j], constant_points_to(*m, ops@[j]->Constant_0, x)]
                                0 <= j < i + 1 && ops@[j] is Constant && constant_points_to(
                                    *m,
                                    ops@[j]->Constant_0,
                                    x,
                                ) && h == (FactView::OperandPointsTo {
                                    ctx: ctx@,
                                    operand: ops@[j],
                                    alloc: x,
                                }) by {
                            lemma_constant_skip(*m, ctx@, ops@, i as int, h);
                        }
                    }
                }
                i += 1;
            }
        }
    }
}

/// Whether `h` says that one of the first `n` operands, a constant, denotes
/// in `ctx` what the constant points to.
pub open spec fn constant_fact(
    m: Module,
    ctx: Seq<InstructionName>,
    ops: Seq<Operand>,
    n: int,
    h: FactView,
) -> bool {
    exists|j: int, x: Alloc|
        #![trigger ops[j], constant_points_to(m, ops[j]->Constant_0, x)]
        0 <= j < n && ops[j] is Constant && constant_points_to(m, ops[j]->Constant_0, x) && h
            == (FactView::OperandPointsTo { ctx, operand: ops[j], alloc: x })
}

proof fn lemma_constant_step(
    m: Module,
    ctx: Seq<InstructionName>,
    ops: Seq<Operand>,
    i: int,
    allocs: Seq<Alloc>,
    h: FactView,
)
    requires
        0 <= i < ops.len(),
        ops[i] is Constant,
        forall|x: Alloc|
            #![trigger allocs.contains(x)]
            allocs.contains(x) <==> constant_points_to(m, ops[i]->Constant_0, x),
    ensures
        constant_fact(m, ctx, ops, i + 1, h) <==> constant_fact(m, ctx, ops, i, h) || exists|
            x: Alloc,
        |
            #![trigger allocs.contains(x)]
            allocs.contains(x) && h == (FactView::OperandPointsTo {
                ctx,
                operand: ops[i],
                alloc: x,
            }),
{
    if constant_fact(m, ctx, ops, i + 1, h) {
        let (j, x) = choose|j: int, x: Alloc|
            #![trigger ops[j], constant_points_to(m, ops[j]->Constant_0, x)]
            0 <= j < i + 1 && ops[j] is Constant && constant_points_to(m, ops[j]->Constant_0, x)
                && h == (FactView::OperandPointsTo { ctx, operand: ops[j], alloc: x });
        if j < i {
            assert(constant_fact(m, ctx, ops, i, h));
        } else {
            assert(allocs.contains(x));
        }
    }
    if constant_fact(m, ctx, ops, i, h) {
        let (j, x) = choose|j: int, x: Alloc|
            #![trigger ops[j], constant_points_to(m, ops[j]->Constant_0, x)]
            0 <= j < i && ops[j] is Constant && constant_points_to(m, ops[j]->Constant_0, x) && h
                == (FactView::OperandPointsTo { ctx, operand: ops[j], alloc: x });
        assert(0 <= j < i + 1 && ops[j] is Constant && constant_points_to(
            m,
            ops[j]->Constant_0,
            x,
        ));
    }
    if exists|x: Alloc|
        #![trigger allocs.contains(x)]
        allocs.contains(x) && h == (FactView::OperandPointsTo { ctx, operand: ops[i], alloc: x }) {
        let x = choose|x: Alloc|
            #![trigger allocs.contains(x)]
            allocs.contains(x) && h == (FactView::OperandPointsTo {
                ctx,
                operand: ops[i],
                alloc: x,
            });
        assert(ops[i] is Constant && constant_points_to(m, ops[i]->Constant_0, x));
    }
}

proof fn lemma_constant_skip(
    m: Module,
    ctx: Seq<InstructionName>,
    ops: Seq<Operand>,
    i: int,
    h: FactView,
)
    requires
        0 <= i < ops.len(),
        !(ops[i] is Constant),
    ensures
        constant_fact(m, ctx, ops, i + 1, h) <==> constant_fact(m, ctx, ops, i, h),
{
    if constant_fact(m, ctx, ops, i + 1, h) {
        let (j, x) = choose|j: int, x: Alloc|
            #![trigger ops[j], constant_points_to(m, ops[j]->Constant_0, x)]
            0 <= j < i + 1 && ops[j] is Constant && constant_points_to(m, ops[j]->Constant_0, x)
                && h == (FactView::OperandPointsTo { ctx, operand: ops[j], alloc: x });
        assert(j < i);
        assert(constant_fact(m, ctx, ops, i, h));
    }
    if constant_fact(m, ctx, ops, i, h) {
        let (j, x) = choose|j: int, x: Alloc|
            #![trigger ops[j], constant_points_to(m, ops[j]->Constant_0, x)]
            0 <= j < i && ops[j] is Constant && constant_points_to(m, ops[j]->Constant_0, x) && h
                == (FactView::OperandPointsTo { ctx, operand: ops[j], alloc: x });
        assert(0 <= j < i + 1 && ops[j] is Constant && constant_points_to(
            m,
            ops[j]->Constant_0,
            x,
        ));
    }
}

fn apply_asm(m: &Module, c: &Setup, s: InstructionName, a: &Fact, out: &mut Vec<Fact>)
    ensures
        forall|h: FactView|
            #![trigger holds(final(out)@, h)]
            holds(final(out)@, h) <==> holds(old(out)@, h) || rule_asm(*m, *c, s, a@, h),
{
    if let Fact::Reachable { ctx, function } = a {
        if s.parent_function == *function {
            if let Some((callee, args)) = m.call_at(s) {
                if let Callee::Asm = callee {
                    let targets = indirect_call_targets(m, args.len());
                    emit_calls(c.contexts, ctx, s, &targets, out);
                    proof {
                        assert forall|h: FactView| #![trigger holds(out@, h)]
                            holds(out@, h) <==> holds(old(out)@, h) || rule_asm(
                                *m,
                                *c,
                                s,
                                a@,
                                h,
                            ) by {
                            lemma_targets(
                                *m,
                                c.contexts,
                                ctx@,
                                s,
                                args@.len(),
                                targets@,
                                h,
                            );
                        }
                    }
                }
            }
        }
    }
}

/// Whether `h` says that the call at `s` in `ctx` calls a function that
/// takes no more than `nargs` parameters.
pub open spec fn fitting_call(
    m: Module,
    k: usize,
    ctx: Seq<InstructionName>,
    s: InstructionName,
    nargs: nat,
    h: FactView,
) -> bool {
    exists|f: FunctionId|
        #![trigger arity_fits(m, f, nargs)]
        arity_fits(m, f, nargs) && h == (FactView::Calls {
            ctx,
            site: s,
            callee: f,
            callee_ctx: pushed_seq(k as nat, ctx, s),
        })
}

pub proof fn lemma_targets(
    m: Module,
    k: usize,
    ctx: Seq<InstructionName>,
    s: InstructionName,
    nargs: nat,
    targets: Seq<FunctionId>,
    h: FactView,
)
    requires
        forall|f: FunctionId|
            #![trigger targets.contains(f)]
            targets.contains(f) <==> arity_fits(m, f, nargs),
    ensures
        fitting_call(m, k, ctx, s, nargs, h) <==> exists|f: FunctionId|
            #![trigger targets.contains(f)]
            targets.contains(f) && h == (FactView::Calls {
                ctx,
                site: s,
                callee: f,
                callee_ctx: pushed_seq(k as nat, ctx, s),
            }),
{
    if fitting_call(m, k, ctx, s, nargs, h) {
        let f = choose|f: FunctionId|
            #![trigger arity_fits(m, f, nargs)]
            arity_fits(m, f, nargs) && h == (FactView::Calls {
                ctx,
                site: s,
                callee: f,
                callee_ctx: pushed_seq(k as nat, ctx, s),
            });
        assert(targets.contains(f));
    }
    if exists|f: FunctionId|
        #![trigger targets.contains(f)]
        targets.contains(f) && h == (FactView::Calls {
            ctx,
            site: s,
            callee: f,
            callee_ctx: pushed_seq(k as nat, ctx, s),
        }) {
        let f = choose|f: FunctionId|
            #![trigger targets.contains(f)]
            targets.contains(f) && h == (FactView::Calls {
                ctx,
                site: s,
                callee: f,
                callee_ctx: pushed_seq(k as nat, ctx, s),
            });
        assert(arity_fits(m, f, nargs));
    }
}

fn apply_pass(m: &Module, c: &Setup, s: InstructionName, a: &Fact, out: &mut Vec<Fact>)
    ensures
        forall|h: FactView|
            #![trigger holds(final(out)@, h)]
            holds(final(out)@, h) <==> holds(old(out)@, h) || rule_pass(*m, *c, s, a@, h),
{
    if let Fact::OperandPointsTo { ctx, operand, alloc } = a {
        if m.has_instruction(s) && passes_of(m.opcode_of(s), operand) {
            let f = Fact::OperandPointsTo {
                ctx: clone_context(ctx),
                operand: result_of(s),
                alloc: *alloc,
            };
            out.push(f);
            proof {
                lemma_added(old(out)@, out@, f);
            }
        }
    }
}

fn apply_invalid_call(m: &Module, c: &Setup, s: InstructionName, a: &Fact, out: &mut Vec<Fact>)
    ensures
        forall|h: FactView|
            #![trigger holds(final(out)@, h)]
            holds(final(out)@, h) <==> holds(old(out)@, h) || rule_invalid_call(
                *m,
                *c,
                s,
                a@,
                h,
            ),
{
    if let Fact::OperandPointsTo { ctx, operand, alloc } = a {
        if c.metrics {
            if let Some((callee, _)) = m.call_at(s) {
                if let Callee::Operand(op) = callee {
                    if op.equals(operand) {
                        let is_function = match alloc {
                            Alloc::Function(_) => true,
                            _ => false,
                        };
                        if !is_function {
                            let f = Fact::InvalidCall { operand: operand.clone(), alloc: *alloc };
                            out.push(f);
                            proof {
                                lemma_added(old(out)@, out@, f);
                            }
                        }
                    }
                }
            }
        }
    }
}

fn apply_invalid_load(m: &Module, c: &Setup, s: InstructionName, a: &Fact, out: &mut Vec<Fact>)
    ensures
        forall|h: FactView|
            #![trigger holds(final(out)@, h)]
            holds(final(out)@, h) <==> holds(old(out)@, h) || rule_invalid_load(
                *m,
                *c,
                s,
                a@,
                h,
            ),
{
    if let Fact::OperandPointsTo { ctx, operand, alloc } = a {
        if c.metrics && m.has_instruction(s) {
            if let Opcode::Load(l) = m.opcode_of(s) {
                if l.pointer.equals(operand) && !alloc.loadable() {
                    let f = Fact::InvalidLoad { operand: operand.clone(), alloc: *alloc };
                    out.push(f);
                    proof {
                        lemma_added(old(out)@, out@, f);
                    }
                }
            }
        }
    }
}

fn apply_invalid_store(m: &Module, c: &Setup, s: InstructionName, a: &Fact, out: &mut Vec<Fact>)
    ensures
        forall|h: FactView|
            #![trigger holds(final(out)@, h)]
            holds(final(out)@, h) <==> holds(old(out)@, h) || rule_invalid_store(
                *m,
                *c,
                s,
                a@,
                h,
            ),
{
    if let Fact::OperandPointsTo { ctx, operand, alloc } = a {
        if c.metrics && m.has_instruction(s) {
            if let Opcode::Store(st) = m.opcode_of(s) {
                if st.pointer.equals(operand) && !alloc.storable(m) {
                    let f = Fact::InvalidStore { operand: operand.clone(), alloc: *alloc };
                    out.push(f);
                    proof {
                        lemma_added(old(out)@, out@, f);
                    }
                }
            }
        }
    }
}

/// Adds what follows from `a` at the site `s`.
pub fn derive_unary_at(m: &Module, c: &Setup, s: InstructionName, a: &Fact, out: &mut Vec<Fact>)
    requires
        m.is_site(s),
    ensures
        forall|h: FactView|
            #![trigger holds(final(out)@, h)]
            holds(final(out)@, h) <==> holds(old(out)@, h) || unary_at(*m, *c, s, a@, h),
{
    apply_stack(m, c, s, a, out);
    apply_constant(m, c, s, a, out);
    apply_asm(m, c, s, a, out);
    apply_pass(m, c, s, a, out);
    apply_invalid_call(m, c, s, a, out);
    apply_invalid_load(m, c, s, a, out);
    apply_invalid_store(m, c, s, a, out);
}

} // verus!
